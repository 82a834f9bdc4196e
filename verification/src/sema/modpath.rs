use vstd::prelude::*;

use crate::common::text::{push_char, str_eq};

verus! {

/// The path written in an import statement, its parts separated by periods.
#[derive(Debug, Clone)]
pub struct ImportPath {
    path: String,
}

/// The path that names a module, its parts separated by periods.
#[derive(Debug, Clone)]
pub struct ModulePath {
    import: String,
    path: String,
}

/// A path with each period replaced by an underscore.
pub open spec fn underscored(s: Seq<char>) -> Seq<char> {
    s.map_values(|c: char| if c == '.' { '_' } else { c })
}

/// A path with underscores for periods has no period left.
pub proof fn law_underscored_has_no_period(s: Seq<char>)
    ensures
        !underscored(s).contains('.'),
        underscored(s).len() == s.len(),
{
    if underscored(s).contains('.') {
        let i = choose|i: int| 0 <= i < underscored(s).len() && underscored(s)[i] == '.';
        assert(underscored(s)[i] == (if s[i] == '.' { '_' } else { s[i] }));
    }
}

impl ImportPath {
    pub closed spec fn view(&self) -> Seq<char> {
        self.path@
    }

    pub fn new(path: String) -> (r: Self)
        ensures
            r@ == path@,
    {
        ImportPath { path }
    }

    pub fn path(&self) -> (r: &str)
        ensures
            r@ == self@,
    {
        self.path.as_str()
    }
}

impl ModulePath {
    /// The path as written in imports.
    pub closed spec fn spec_import(&self) -> Seq<char> {
        self.import@
    }

    pub closed spec fn view(&self) -> Seq<char> {
        self.path@
    }

    /// A module path that is also its import path.
    pub fn new(path: String) -> (r: Self)
        ensures
            r@ == path@,
            r.spec_import() == path@,
    {
        ModulePath { import: path.clone(), path }
    }

    /// The module path of an imported module.
    pub fn from_import(impath: &ImportPath) -> (r: Self)
        ensures
            r@ == impath@,
            r.spec_import() == impath@,
    {
        ModulePath { import: impath.path.clone(), path: impath.path.clone() }
    }

    pub fn path(&self) -> (r: &str)
        ensures
            r@ == self@,
    {
        self.path.as_str()
    }

    pub fn import_path(&self) -> (r: &str)
        ensures
            r@ == self.spec_import(),
    {
        self.import.as_str()
    }

    /// Is this the program's main module?
    pub fn is_main(&self) -> (r: bool)
        ensures
            r == (self@ == "main"@),
    {
        str_eq(self.path.as_str(), "main")
    }

    /// The path with periods replaced by underscores, for symbol names.
    pub fn to_underscore(&self) -> (r: String)
        ensures
            r@ == underscored(self@),
    {
        let mut r = String::new();
        let n = self.path.as_str().unicode_len();
        let mut i: usize = 0;
        while i < n
            invariant
                n == self@.len(),
                i <= n,
                r@ == underscored(self@).take(i as int),
            decreases n - i,
        {
            let c = self.path.as_str().get_char(i);
            if c == '.' {
                push_char(&mut r, '_');
            } else {
                push_char(&mut r, c);
            }
            assert(underscored(self@).take(i + 1) =~= underscored(self@).take(i as int).push(
                underscored(self@)[i as int],
            ));
            i = i + 1;
        }
        assert(underscored(self@).take(n as int) =~= underscored(self@));
        r
    }
}

} // verus!
