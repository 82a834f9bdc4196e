use vstd::prelude::*;
use vstd::utf8::*;

use crate::common::text::utf8_range_to_string;

verus! {

pub type SourceId = usize;

/// A place in a source file.
#[derive(Debug, Clone, Copy, PartialEq, Eq, Structural, Default)]
pub struct Pos {
    pub row: usize,
    pub col: usize,
    pub offset: usize,
    pub line_begin: usize,
    pub source_id: SourceId,
}

/// Offsets at which a line starts: the first byte, and every byte that
/// follows a newline.
pub open spec fn is_line_start(src: Seq<u8>, i: int) -> bool {
    0 <= i < src.len() && (i == 0 || src[i - 1] == 10u8)
}

/// The line starts of `src`, in increasing order, found among `[from, src.len())`.
pub open spec fn line_starts_from(src: Seq<u8>, from: int) -> Seq<usize>
    decreases src.len() - from,
{
    if from >= src.len() || from < 0 {
        Seq::empty()
    } else if is_line_start(src, from) {
        seq![from as usize] + line_starts_from(src, from + 1)
    } else {
        line_starts_from(src, from + 1)
    }
}

/// The beginnings of the lines of `src`: `[0]` for an empty file.
pub open spec fn line_beginnings(src: Seq<u8>) -> Seq<usize> {
    if src.len() == 0 {
        seq![0usize]
    } else {
        line_starts_from(src, 0)
    }
}

/// The offset of the first newline at or after `offset`, or the last offset
/// when there is none.
pub open spec fn end_of_line(src: Seq<u8>, offset: int) -> int
    decreases src.len() - offset,
{
    if offset >= src.len() - 1 || offset < 0 {
        src.len() - 1
    } else if src[offset] == 10u8 {
        offset
    } else {
        end_of_line(src, offset + 1)
    }
}

/// One source file: its path, its bytes, and where its lines begin.
#[derive(Debug)]
pub struct Source {
    pub id: SourceId,
    pub filepath: String,
    pub src: Vec<u8>,
    pub size: usize,
    pub lines: Vec<usize>,
}

proof fn lemma_end_of_line(src: Seq<u8>, offset: int)
    requires
        0 <= offset < src.len(),
    ensures
        offset <= end_of_line(src, offset) < src.len(),
        forall|k: int| offset <= k < end_of_line(src, offset) ==> src[k] != 10u8,
        end_of_line(src, offset) < src.len() - 1 ==> src[end_of_line(src, offset)] == 10u8,
    decreases src.len() - offset,
{
    if offset < src.len() - 1 && src[offset] != 10u8 {
        lemma_end_of_line(src, offset + 1);
    }
}

proof fn lemma_no_line_start_between(src: Seq<u8>, from: int, to: int)
    requires
        0 <= from <= to <= src.len(),
        forall|k: int| from <= k < to ==> !is_line_start(src, k),
    ensures
        line_starts_from(src, from) == line_starts_from(src, to),
    decreases to - from,
{
    if from < to {
        lemma_no_line_start_between(src, from + 1, to);
    }
}

impl Source {
    pub open spec fn wf(&self) -> bool {
        &&& self.size == self.src.len()
        &&& self.lines@ == line_beginnings(self.src@)
    }

    pub fn new(id: SourceId, filepath: String, src: Vec<u8>) -> (r: Source)
        ensures
            r.wf(),
            r.id == id,
            r.filepath == filepath,
            r.src == src,
    {
        let lines = Source::get_line_beginnings(&src);
        Source { id, filepath, size: src.len(), lines, src }
    }

    pub fn new_str(id: SourceId, filepath: String, src: String) -> (r: Source)
        ensures
            r.wf(),
            r.id == id,
            r.filepath == filepath,
            r.src@ == encode_utf8(src@),
    {
        let bytes = src.as_str().as_bytes();
        let mut v: Vec<u8> = Vec::new();
        let mut i: usize = 0;
        while i < bytes.len()
            invariant
                i <= bytes.len(),
                v@ == bytes@.take(i as int),
            decreases bytes.len() - i,
        {
            v.push(bytes[i]);
            i = i + 1;
            assert(v@ =~= bytes@.take(i as int));
        }
        assert(v@ =~= bytes@);
        Self::new(id, filepath, v)
    }

    fn get_line_beginnings(src: &Vec<u8>) -> (lines: Vec<usize>)
        ensures
            lines@ == line_beginnings(src@),
    {
        let mut lines: Vec<usize> = Vec::new();
        let mut i: usize = 0;
        while i < src.len()
            invariant
                i <= src.len(),
                i == 0 || is_line_start(src@, i as int) || i == src.len(),
                lines@ + line_starts_from(src@, i as int) == line_starts_from(src@, 0),
            decreases src.len() - i,
        {
            lines.push(i);
            let end = Self::find_end_of_line(src, i);
            proof {
                lemma_end_of_line(src@, i as int);
                assert(is_line_start(src@, i as int));
                assert forall|k: int| i + 1 <= k < end + 1 implies !is_line_start(src@, k) by {
                    assert(src@[k - 1] != 10u8);
                }
                lemma_no_line_start_between(src@, i + 1, end + 1);
            }
            i = end + 1;
        }
        if lines.len() == 0 {
            lines.push(0);
            assert(lines@ =~= line_beginnings(src@));
        } else {
            assert(line_starts_from(src@, i as int) =~= Seq::<usize>::empty());
            assert(lines@ =~= line_beginnings(src@));
        }
        lines
    }

    /// The text of line `row`, its newline included.
    pub fn line(&self, row: usize) -> (r: Option<String>)
        requires
            self.wf(),
            row < self.lines@.len(),
            self.src@.len() > 0,
        ensures
            r is Some <==> valid_utf8(self.src@.subrange(
                self.lines@[row as int] as int,
                end_of_line(self.src@, self.lines@[row as int] as int) + 1,
            )),
            r matches Some(s) ==> s@ == decode_utf8(self.src@.subrange(
                self.lines@[row as int] as int,
                end_of_line(self.src@, self.lines@[row as int] as int) + 1,
            )),
    {
        let start = self.lines[row];
        proof {
            lemma_line_starts_bound(self.src@, 0);
            assert(self.lines@.contains(start));
        }
        let end = Source::find_end_of_line(&self.src, start);
        proof {
            lemma_end_of_line(self.src@, start as int);
        }
        self.str_range(start, end + 1)
    }

    /// The text of `src[from..to]`; `None` when those bytes are not UTF-8.
    pub fn str_range(&self, from: usize, to: usize) -> (r: Option<String>)
        requires
            from <= to <= self.src@.len(),
        ensures
            r is Some <==> valid_utf8(self.src@.subrange(from as int, to as int)),
            r matches Some(s) ==> s@ == decode_utf8(self.src@.subrange(from as int, to as int)),
    {
        utf8_range_to_string(&self.src, from, to)
    }

    fn find_end_of_line(src: &Vec<u8>, offset: usize) -> (r: usize)
        requires
            offset < src@.len(),
        ensures
            r == end_of_line(src@, offset as int),
    {
        let mut k = offset;
        while k < src.len() - 1 && src[k] != 10u8
            invariant
                offset <= k < src@.len(),
                end_of_line(src@, offset as int) == end_of_line(src@, k as int),
            decreases src@.len() - k,
        {
            k = k + 1;
        }
        k
    }
}

proof fn lemma_line_starts_bound(src: Seq<u8>, from: int)
    ensures
        forall|j: int| 0 <= j < line_starts_from(src, from).len() ==>
            0 <= #[trigger] line_starts_from(src, from)[j] < src.len(),
    decreases src.len() - from,
{
    if from < src.len() && from >= 0 {
        lemma_line_starts_bound(src, from + 1);
        let r = line_starts_from(src, from + 1);
        if is_line_start(src, from) {
            assert forall|j: int| 0 <= j < line_starts_from(src, from).len() implies
                0 <= #[trigger] line_starts_from(src, from)[j] < src.len() by {
                if j > 0 {
                    assert(line_starts_from(src, from)[j] == r[j - 1]);
                }
            }
        }
    }
}

/// The map that a list of sources stands for: a later source overrides an
/// earlier one with the same id.
pub open spec fn sources_map(s: Seq<Source>) -> Map<SourceId, Source>
    decreases s.len(),
{
    if s.len() == 0 {
        Map::empty()
    } else {
        sources_map(s.drop_last()).insert(s.last().id, s.last())
    }
}

pub open spec fn ids_distinct(s: Seq<Source>) -> bool {
    forall|i: int, j: int| 0 <= i < j < s.len() ==> s[i].id != s[j].id
}

proof fn lemma_sources_map_domain(s: Seq<Source>, id: SourceId)
    ensures
        sources_map(s).contains_key(id) <==> exists|i: int| 0 <= i < s.len() && s[i].id == id,
    decreases s.len(),
{
    if s.len() > 0 {
        lemma_sources_map_domain(s.drop_last(), id);
        if sources_map(s).contains_key(id) && s.last().id != id {
            let i = choose|i: int| 0 <= i < s.len() - 1 && s.drop_last()[i].id == id;
            assert(s[i].id == id);
        }
        if exists|i: int| 0 <= i < s.len() && s[i].id == id {
            let i = choose|i: int| 0 <= i < s.len() && s[i].id == id;
            if i < s.len() - 1 {
                assert(s.drop_last()[i].id == id);
            }
        }
    }
}

proof fn lemma_sources_map_at(s: Seq<Source>, i: int)
    requires
        ids_distinct(s),
        0 <= i < s.len(),
    ensures
        sources_map(s).contains_key(s[i].id),
        sources_map(s)[s[i].id] == s[i],
    decreases s.len(),
{
    if i < s.len() - 1 {
        let t = s.drop_last();
        lemma_sources_map_at(t, i);
        assert(t[i] == s[i]);
    }
}

proof fn lemma_sources_update(s: Seq<Source>, i: int, v: Source)
    requires
        ids_distinct(s),
        0 <= i < s.len(),
        v.id == s[i].id,
    ensures
        ids_distinct(s.update(i, v)),
        sources_map(s.update(i, v)) == sources_map(s).insert(v.id, v),
    decreases s.len(),
{
    let u = s.update(i, v);
    if i == s.len() - 1 {
        assert(u.drop_last() =~= s.drop_last());
    } else {
        let t = s.drop_last();
        lemma_sources_update(t, i, v);
        assert(u.drop_last() =~= t.update(i, v));
        assert(sources_map(u) =~= sources_map(s).insert(v.id, v));
    }
}

/// Sources by id. Adding a source with an id that is present replaces it.
pub struct SourceMap {
    map: Vec<Source>,
}

impl SourceMap {
    pub closed spec fn view(&self) -> Map<SourceId, Source> {
        sources_map(self.map@)
    }

    pub closed spec fn wf(&self) -> bool {
        ids_distinct(self.map@)
    }

    pub fn new() -> (r: Self)
        ensures
            r.wf(),
            r@ == Map::<SourceId, Source>::empty(),
    {
        SourceMap { map: Vec::new() }
    }

    pub fn one(source: Source) -> (r: Self)
        ensures
            r.wf(),
            r@ == Map::<SourceId, Source>::empty().insert(source.id, source),
    {
        let mut map = Self::new();
        map.add(source);
        map
    }

    fn position(&self, id: SourceId) -> (r: Option<usize>)
        requires
            self.wf(),
        ensures
            r matches Some(i) ==> i < self.map@.len() && self.map@[i as int].id == id,
            r is None ==> !self@.contains_key(id),
    {
        let mut i: usize = 0;
        while i < self.map.len()
            invariant
                i <= self.map@.len(),
                forall|j: int| 0 <= j < i ==> self.map@[j].id != id,
            decreases self.map@.len() - i,
        {
            if self.map[i].id == id {
                return Some(i);
            }
            i = i + 1;
        }
        proof {
            lemma_sources_map_domain(self.map@, id);
        }
        None
    }

    pub fn add(&mut self, source: Source)
        requires
            old(self).wf(),
        ensures
            final(self).wf(),
            final(self)@ == old(self)@.insert(source.id, source),
    {
        let ghost s = source;
        match self.position(source.id) {
            Some(i) => {
                let _ = self.map.remove(i);
                self.map.insert(i, source);
                proof {
                    assert(self.map@ =~= old(self).map@.update(i as int, s));
                    lemma_sources_update(old(self).map@, i as int, s);
                }
            },
            None => {
                self.map.push(source);
                proof {
                    assert(self.map@.drop_last() =~= old(self).map@);
                    lemma_sources_map_domain(old(self).map@, s.id);
                }
            },
        }
    }

    pub fn get(&self, id: SourceId) -> (r: Option<&Source>)
        requires
            self.wf(),
        ensures
            r matches Some(s) ==> self@.contains_key(id) && *s == self@[id],
            r is None ==> !self@.contains_key(id),
    {
        match self.position(id) {
            Some(i) => {
                proof {
                    lemma_sources_map_at(self.map@, i as int);
                }
                Some(&self.map[i])
            },
            None => None,
        }
    }

    pub fn is_empty(&self) -> (b: bool)
        requires
            self.wf(),
        ensures
            b == (self@ == Map::<SourceId, Source>::empty()),
    {
        if self.map.len() == 0 {
            true
        } else {
            proof {
                lemma_sources_map_at(self.map@, 0);
            }
            false
        }
    }

    /// Every source, in the order of first addition.
    pub fn sources(&self) -> (r: &[Source])
        requires
            self.wf(),
        ensures
            forall|i: int| 0 <= i < r@.len() ==> self@.contains_key(#[trigger] r@[i].id) && self@[r@[i].id] == r@[i],
            forall|id: SourceId| #[trigger] self@.contains_key(id) ==> exists|i: int| 0 <= i < r@.len() && r@[i].id == id,
    {
        proof {
            assert forall|i: int| 0 <= i < self.map@.len() implies self@.contains_key(#[trigger] self.map@[i].id) && self@[self.map@[i].id] == self.map@[i] by {
                lemma_sources_map_at(self.map@, i);
            }
            assert forall|id: SourceId| #[trigger] self@.contains_key(id) implies exists|i: int| 0 <= i < self.map@.len() && self.map@[i].id == id by {
                lemma_sources_map_domain(self.map@, id);
            }
        }
        self.map.as_slice()
    }

    /// Adds every source of `other`; its sources replace those with the same id.
    pub fn join(&mut self, other: SourceMap)
        requires
            old(self).wf(),
            other.wf(),
        ensures
            final(self).wf(),
            final(self)@ == old(self)@.union_prefer_right(other@),
    {
        let ghost all = other.map@;
        let mut rest = other.map;
        let mut items: Vec<Source> = Vec::new();
        while rest.len() > 0
            invariant
                rest@ + items@.reverse() == all,
            decreases rest@.len(),
        {
            let s = rest.pop().unwrap();
            items.push(s);
            assert(rest@ + items@.reverse() =~= all);
        }
        assert(items@.reverse() =~= all);
        let ghost mut done: Seq<Source> = Seq::empty();
        while items.len() > 0
            invariant
                self.wf(),
                done + items@.reverse() == all,
                self@ == old(self)@.union_prefer_right(sources_map(done)),
            decreases items@.len(),
        {
            let s = items.pop().unwrap();
            let ghost sv = s;
            self.add(s);
            proof {
                let nd = done.push(sv);
                assert(nd.drop_last() =~= done);
                assert(nd + items@.reverse() =~= all);
                assert(self@ =~= old(self)@.union_prefer_right(sources_map(nd)));
                done = nd;
            }
        }
        assert(done =~= all);
    }
}

} // verus!
