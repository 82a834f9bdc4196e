use vstd::prelude::*;

use crate::ast::nodes::{Ast, ImportNode};
use crate::ast::token::{kind_text, Token, TokenKind};
use crate::common::source::Source;
use crate::common::text::{push_char, push_str, str_eq};
use crate::sema::modpath::{ImportPath, ModulePath};

verus! {

/// The last component of a path: what follows its last `/`.
pub open spec fn file_name(path: Seq<char>) -> Seq<char>
    decreases path.len(),
{
    if path.len() == 0 {
        Seq::empty()
    } else if path.last() == '/' {
        Seq::empty()
    } else {
        file_name(path.drop_last()).push(path.last())
    }
}

/// The last component of a path.
pub fn filename_of(path: &str) -> (r: String)
    ensures
        r@ == file_name(path@),
{
    let n = path.unicode_len();
    let mut start: usize = n;
    let mut done = false;
    assert(path@.take(n as int) =~= path@);
    assert(path@.subrange(n as int, n as int) =~= Seq::<char>::empty());
    while start > 0 && !done
        invariant
            start <= n,
            n == path@.len(),
            file_name(path@) == file_name(path@.take(start as int)) + path@.subrange(start as int, n as int),
            done ==> file_name(path@.take(start as int)) == Seq::<char>::empty(),
        decreases start, if done { 0int } else { 1int },
    {
        if path.get_char(start - 1) == '/' {
            assert(path@.take(start as int).last() == '/');
            done = true;
        } else {
            assert(path@.take(start as int).drop_last() =~= path@.take(start - 1));
            assert(path@.subrange(start - 1, n as int) =~= seq![path@[start - 1]] + path@.subrange(start as int, n as int));
            assert(file_name(path@) =~= file_name(path@.take(start - 1)) + path@.subrange(start - 1, n as int));
            start = start - 1;
        }
    }
    proof {
        if start == 0 {
            assert(path@.take(0) =~= Seq::<char>::empty());
        }
    }
    let mut r = String::new();
    let mut i = start;
    while i < n
        invariant
            start <= i <= n,
            n == path@.len(),
            r@ == path@.subrange(start as int, i as int),
        decreases n - i,
    {
        push_char(&mut r, path.get_char(i));
        assert(r@ =~= path@.subrange(start as int, i + 1));
        i = i + 1;
    }
    assert(file_name(path@) =~= r@);
    r
}

/// A parsed source file.
pub struct File {
    pub filename: String,
    pub filepath: String,
    /// The file declares and imports nothing.
    pub empty: bool,
    pub ast: Ast,
}

impl File {
    pub fn new(source: &Source, ast: Ast) -> (r: File)
        ensures
            r.empty == (ast.decls@.len() == 0 && ast.imports@.len() == 0),
            r.filepath@ == source.filepath@,
            r.filename@ == file_name(source.filepath@),
            r.ast == ast,
    {
        File {
            empty: ast.decls.len() == 0 && ast.imports.len() == 0,
            filename: filename_of(source.filepath.as_str()),
            filepath: source.filepath.clone(),
            ast,
        }
    }
}

/// An import of a module: its path, the names it imports, and the alias of
/// its namespace.
pub struct Import {
    pub impath: ImportPath,
    pub symbols: Vec<String>,
    pub alias: Option<String>,
}

/// What an import says: its dotted path, the names of the items it imports,
/// and its alias.
pub type ImportView = (Seq<char>, Seq<Seq<char>>, Option<Seq<char>>);

/// The names joined by periods.
pub open spec fn dotted_names(names: Seq<Token>) -> Seq<char>
    decreases names.len(),
{
    if names.len() == 0 {
        Seq::empty()
    } else if names.len() == 1 {
        kind_text(names[0].kind)
    } else {
        dotted_names(names.drop_last()) + "."@ + kind_text(names.last().kind)
    }
}

/// What an import statement says.
pub open spec fn node_view(node: ImportNode) -> ImportView {
    (
        dotted_names(node.names@),
        node.imports@.map_values(|t: Token| kind_text(t.kind)),
        match node.alias {
            Some(a) => Some(kind_text(a.kind)),
            None => None,
        },
    )
}

/// What an import says.
pub open spec fn import_view(imp: Import) -> ImportView {
    (
        imp.impath@,
        imp.symbols@.map_values(|s: String| s@),
        match imp.alias {
            Some(a) => Some(a@),
            None => None,
        },
    )
}

/// The import statements of the files, file after file.
pub open spec fn file_imports(files: Seq<File>) -> Seq<ImportView>
    decreases files.len(),
{
    if files.len() == 0 {
        Seq::empty()
    } else {
        file_imports(files.drop_last()) + files.last().ast.imports@.map_values(|n: ImportNode| node_view(n))
    }
}

/// The views in order, each kept only where it comes first.
pub open spec fn first_occurrences(views: Seq<ImportView>) -> Seq<ImportView>
    decreases views.len(),
{
    if views.len() == 0 {
        Seq::empty()
    } else {
        let kept = first_occurrences(views.drop_last());
        if kept.contains(views.last()) {
            kept
        } else {
            kept.push(views.last())
        }
    }
}

/// The name in an identifier token, or the token's text.
fn token_text(tok: &Token) -> (r: String)
    ensures
        tok.kind matches TokenKind::IdentLit(s) ==> r == s,
        r@ == kind_text(tok.kind),
{
    match &tok.kind {
        TokenKind::IdentLit(s) => s.clone(),
        _ => tok.to_string(),
    }
}

impl Import {
    /// The import an import statement makes.
    pub fn from_node(node: &ImportNode) -> (r: Import)
        ensures
            import_view(r) == node_view(*node),
            r.symbols@.len() == node.imports@.len(),
            r.alias is Some <==> node.alias is Some,
    {
        let mut path = String::new();
        let mut k: usize = 0;
        while k < node.names.len()
            invariant
                k <= node.names@.len(),
                path@ == dotted_names(node.names@.take(k as int)),
            decreases node.names@.len() - k,
        {
            if k > 0 {
                push_str(&mut path, ".");
                proof {
                    reveal_strlit(".");
                }
            }
            let part = token_text(&node.names[k]);
            push_str(&mut path, part.as_str());
            proof {
                let t = node.names@.take(k + 1);
                assert(t.drop_last() =~= node.names@.take(k as int));
                if k == 0 {
                    assert(path@ =~= dotted_names(t));
                } else {
                    assert(path@ =~= dotted_names(t));
                }
            }
            k = k + 1;
        }
        assert(node.names@.take(k as int) =~= node.names@);
        let mut symbols: Vec<String> = Vec::new();
        let mut k: usize = 0;
        while k < node.imports.len()
            invariant
                k <= node.imports@.len(),
                symbols@.len() == k,
                forall|j: int| 0 <= j < k ==> (#[trigger] symbols@[j])@ == kind_text(node.imports@[j].kind),
            decreases node.imports@.len() - k,
        {
            symbols.push(token_text(&node.imports[k]));
            k = k + 1;
        }
        let alias = match &node.alias {
            Some(a) => Some(token_text(a)),
            None => None,
        };
        let r = Import { impath: ImportPath::new(path), symbols, alias };
        assert(r.symbols@.map_values(|s: String| s@) =~= node.imports@.map_values(|t: Token| kind_text(t.kind)));
        r
    }

    proof fn lemma_same_view(a: Import, b: Import)
        ensures
            (import_view(a) == import_view(b)) == (a.impath@ == b.impath@ && a.symbols@.len() == b.symbols@.len()
                && (forall|i: int| 0 <= i < a.symbols@.len() ==> (#[trigger] a.symbols@[i])@ == b.symbols@[i]@)
                && match (a.alias, b.alias) {
                (Some(x), Some(y)) => x@ == y@,
                (None, None) => true,
                _ => false,
            }),
    {
        let sa = a.symbols@.map_values(|s: String| s@);
        let sb = b.symbols@.map_values(|s: String| s@);
        if a.symbols@.len() == b.symbols@.len() && (forall|i: int| 0 <= i < a.symbols@.len() ==> (#[trigger] a.symbols@[i])@ == b.symbols@[i]@) {
            assert(sa =~= sb);
        }
        assert(sa.len() == a.symbols@.len() && sb.len() == b.symbols@.len());
        if sa == sb {
            assert forall|i: int| 0 <= i < a.symbols@.len() implies (#[trigger] a.symbols@[i])@ == b.symbols@[i]@ by {
                assert(sa[i] == a.symbols@[i]@);
                assert(sb[i] == b.symbols@[i]@);
            }
        }
        match (a.alias, b.alias) {
            (Some(x), Some(y)) => {},
            _ => {},
        }
    }

    /// Do the two imports name the same path, items and alias?
    pub fn same(&self, other: &Import) -> (r: bool)
        ensures
            r == (import_view(*self) == import_view(*other)),
            r == (self.impath@ == other.impath@ && self.symbols@.len() == other.symbols@.len() && (forall|i: int|
                0 <= i < self.symbols@.len() ==> (#[trigger] self.symbols@[i])@ == other.symbols@[i]@) && match (
                self.alias,
                other.alias,
            ) {
                (Some(a), Some(b)) => a@ == b@,
                (None, None) => true,
                _ => false,
            }),
    {
        proof {
            Import::lemma_same_view(*self, *other);
        }
        if !str_eq(self.impath.path(), other.impath.path()) || self.symbols.len() != other.symbols.len() {
            return false;
        }
        let mut i: usize = 0;
        while i < self.symbols.len()
            invariant
                self.symbols@.len() == other.symbols@.len(),
                self.impath@ == other.impath@,
                i <= self.symbols@.len(),
                forall|j: int| 0 <= j < i ==> (#[trigger] self.symbols@[j])@ == other.symbols@[j]@,
            decreases self.symbols@.len() - i,
        {
            if !str_eq(self.symbols[i].as_str(), other.symbols[i].as_str()) {
                proof {
                    Import::lemma_same_view(*self, *other);
                }
                return false;
            }
            i = i + 1;
        }
        match (&self.alias, &other.alias) {
            (Some(a), Some(b)) => str_eq(a.as_str(), b.as_str()),
            (None, None) => true,
            _ => false,
        }
    }
}

/// The parsed files of one module, with the imports they make, each once.
pub struct FileSet {
    pub filepath: String,
    pub modpath: ModulePath,
    pub imports: Vec<Import>,
    pub files: Vec<File>,
}

impl FileSet {
    /// The file set of a module; its path is that of its first file, and its
    /// imports are those the files make, in order, each kept where it first
    /// comes.
    pub fn new(modpath: ModulePath, files: Vec<File>) -> (r: FileSet)
        requires
            files@.len() > 0,
        ensures
            r.files == files,
            r.modpath == modpath,
            r.filepath@ == files@[0].filepath@,
            r.imports@.map_values(|imp: Import| import_view(imp)) == first_occurrences(file_imports(files@)),
    {
        let mut imports: Vec<Import> = Vec::new();
        let mut i: usize = 0;
        assert(files@.take(0) =~= Seq::<File>::empty());
        while i < files.len()
            invariant
                i <= files@.len(),
                imports@.map_values(|imp: Import| import_view(imp)) == first_occurrences(
                    file_imports(files@.take(i as int)),
                ),
            decreases files@.len() - i,
        {
            let ghost before = file_imports(files@.take(i as int));
            let ghost nodes = files@[i as int].ast.imports@;
            let mut k: usize = 0;
            assert(before + nodes.take(0).map_values(|n: ImportNode| node_view(n)) =~= before);
            while k < files[i].ast.imports.len()
                invariant
                    i < files@.len(),
                    k <= nodes.len(),
                    nodes == files@[i as int].ast.imports@,
                    imports@.map_values(|imp: Import| import_view(imp)) == first_occurrences(
                        before + nodes.take(k as int).map_values(|n: ImportNode| node_view(n)),
                    ),
                decreases files@[i as int].ast.imports@.len() - k,
            {
                let imp = Import::from_node(&files[i].ast.imports[k]);
                let ghost kept = imports@.map_values(|imp: Import| import_view(imp));
                let mut found = false;
                let mut j: usize = 0;
                while j < imports.len()
                    invariant
                        j <= imports@.len(),
                        kept == imports@.map_values(|imp: Import| import_view(imp)),
                        found == exists|x: int| 0 <= x < j && kept[x] == import_view(imp),
                    decreases imports@.len() - j,
                {
                    assert(kept[j as int] == import_view(imports@[j as int]));
                    if imports[j].same(&imp) {
                        found = true;
                    }
                    j = j + 1;
                }
                let ghost step = before + nodes.take(k as int).map_values(|n: ImportNode| node_view(n));
                proof {
                    assert(before + nodes.take(k + 1).map_values(|n: ImportNode| node_view(n)) =~= step.push(
                        node_view(nodes[k as int]),
                    ));
                    assert(found == kept.contains(import_view(imp)));
                    assert(step.push(node_view(nodes[k as int])).drop_last() =~= step);
                    assert(import_view(imp) == node_view(nodes[k as int]));
                }
                if !found {
                    imports.push(imp);
                    assert(imports@.map_values(|imp: Import| import_view(imp)) =~= kept.push(import_view(imp)));
                }
                k = k + 1;
            }
            proof {
                let t = files@.take(i + 1);
                assert(t.drop_last() =~= files@.take(i as int));
                assert(nodes.take(nodes.len() as int) =~= nodes);
                assert(file_imports(t) == before + nodes.map_values(|n: ImportNode| node_view(n)));
            }
            i = i + 1;
        }
        assert(files@.take(files@.len() as int) =~= files@);
        let filepath = files[0].filepath.clone();
        FileSet { modpath, filepath, imports, files }
    }

    pub fn is_empty(&self) -> (r: bool)
        ensures
            r == (self.files@.len() == 0),
    {
        self.files.len() == 0
    }
}

} // verus!
