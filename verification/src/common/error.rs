use vstd::prelude::*;

use crate::common::source::Pos;

verus! {

/// An error in the code being compiled: a message and the span it is about.
#[derive(Debug, Clone)]
pub struct Report {
    pub message: String,
    pub pos: Pos,
    pub end: Pos,
    pub info: Option<String>,
}

impl Report {
    pub fn code_error(msg: &str, pos: &Pos, end: &Pos) -> (r: Report)
        ensures
            r.message@ == msg@,
            r.pos == *pos,
            r.end == *end,
            r.info is None,
    {
        Report { message: String::from_str(msg), pos: *pos, end: *end, info: None }
    }

    /// A report spanning `length` bytes from `pos` on its line. The end
    /// column and offset saturate at the largest `usize`.
    pub fn code_error_len(msg: &str, pos: &Pos, length: usize) -> (r: Report)
        ensures
            r.message@ == msg@,
            r.pos == *pos,
            r.end.row == pos.row,
            r.end.line_begin == pos.line_begin,
            r.end.source_id == pos.source_id,
            r.end.col == if pos.col + length <= usize::MAX { (pos.col + length) as usize } else { usize::MAX },
            r.end.offset == if pos.offset + length <= usize::MAX { (pos.offset + length) as usize } else { usize::MAX },
            r.info is None,
    {
        let end = Pos {
            row: pos.row,
            col: pos.col.saturating_add(length),
            offset: pos.offset.saturating_add(length),
            line_begin: pos.line_begin,
            source_id: pos.source_id,
        };
        Report { message: String::from_str(msg), pos: *pos, end, info: None }
    }

    /// The same report with a line of extra information.
    pub fn with_info(self, info: &str) -> (r: Report)
        ensures
            r.message == self.message,
            r.pos == self.pos,
            r.end == self.end,
            (r.info matches Some(i) && i@ == info@),
    {
        Report { info: Some(String::from_str(info)), ..self }
    }
}

/// The reports gathered by one compilation phase.
#[derive(Debug)]
pub struct Diagnostics {
    reports: Vec<Report>,
}

pub type Res<T> = Result<T, Diagnostics>;

impl Diagnostics {
    pub closed spec fn view(&self) -> Seq<Report> {
        self.reports@
    }

    pub fn new() -> (r: Diagnostics)
        ensures
            r@ == Seq::<Report>::empty(),
    {
        Diagnostics { reports: Vec::new() }
    }

    pub fn one(report: Report) -> (r: Diagnostics)
        ensures
            r@ == seq![report],
    {
        let mut d = Self::new();
        d.add(report);
        assert(d@ =~= seq![report]);
        d
    }

    pub fn add(&mut self, report: Report)
        ensures
            final(self)@ == old(self)@.push(report),
    {
        self.reports.push(report);
    }

    pub fn is_empty(&self) -> (b: bool)
        ensures
            b == (self@.len() == 0),
    {
        self.reports.len() == 0
    }

    pub fn num_errors(&self) -> (n: usize)
        ensures
            n == self@.len(),
    {
        self.reports.len()
    }

    pub fn reports(&self) -> (r: &Vec<Report>)
        ensures
            r@ == self@,
    {
        &self.reports
    }

    /// `Ok(v)` when nothing was reported, else the reports.
    pub fn err_or<T>(self, v: T) -> (r: Result<T, Diagnostics>)
        ensures
            self@.len() == 0 ==> r == Ok::<T, Diagnostics>(v),
            self@.len() > 0 ==> (r matches Err(d) && d@ == self@),
    {
        if self.reports.len() == 0 {
            Ok(v)
        } else {
            Err(self)
        }
    }
}

} // verus!
