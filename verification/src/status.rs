//! Check results: severities, statuses and the error a check can end in.
use vstd::prelude::*;
use crate::text::{push_decimal, decimal};

verus! {

/// The severity of one result of a check, from least to most severe.
#[derive(Clone, Copy, Debug, PartialEq, Eq, Structural)]
pub enum StatusCode {
    Skip,
    Pass,
    Info,
    Warn,
    Fail,
    Error,
}

/// One result of a check: a severity with an optional machine-readable
/// code and an optional human-readable message.
#[derive(Clone, Debug)]
pub struct Status {
    pub severity: StatusCode,
    pub code: Option<String>,
    pub message: Option<String>,
}

/// The mathematical content of a [`Status`].
pub struct StatusView {
    pub severity: StatusCode,
    pub code: Option<Seq<char>>,
    pub message: Option<Seq<char>>,
}

impl DeepView for Status {
    type V = StatusView;

    open spec fn deep_view(&self) -> StatusView {
        StatusView {
            severity: self.severity,
            code: match self.code {
                Some(c) => Some(c@),
                None => None,
            },
            message: match self.message {
                Some(m) => Some(m@),
                None => None,
            },
        }
    }
}

/// How a check can end without results.
#[derive(Clone, Debug)]
pub enum CheckError {
    /// A table that the check reads is missing or cannot be read.
    FontRead(String),
    /// The check does not apply; it is reported as skipped.
    Skip { code: String, message: String },
    /// Any other failure, with its message.
    General(String),
}

/// Whether `r` is the error for a table that cannot be read.
pub open spec fn is_read_error<T>(r: Result<T, CheckError>, table: Seq<char>) -> bool {
    r matches Err(CheckError::FontRead(t)) && t@ == table
}

/// Whether `r` is the error for a file that is not a font.
pub open spec fn is_not_a_font_error<T>(r: Result<T, CheckError>) -> bool {
    r matches Err(CheckError::General(m)) && m@ == "Not a TTF file"@
}

/// The error for a file that does not parse as a font.
pub fn not_a_font() -> (e: CheckError)
    ensures
        e matches CheckError::General(m) && m@ == "Not a TTF file"@,
{
    CheckError::General("Not a TTF file".to_string())
}

/// A passing status without code or message.
pub open spec fn pass_view() -> StatusView {
    StatusView { severity: StatusCode::Pass, code: None, message: None }
}

/// A status of the given severity with a code and a message.
pub open spec fn status_view(severity: StatusCode, code: Seq<char>, message: Seq<char>) -> StatusView {
    StatusView { severity, code: Some(code), message: Some(message) }
}

/// The result list of a check that passed.
pub open spec fn just_pass() -> Seq<StatusView> {
    seq![pass_view()]
}

/// The result list of a check that reports one finding.
pub open spec fn just_one_view(severity: StatusCode, code: Seq<char>, message: Seq<char>) -> Seq<StatusView> {
    seq![status_view(severity, code, message)]
}

/// The results of a check that collected `problems`: a single pass when
/// there are none, the problems otherwise.
pub open spec fn result_of(problems: Seq<StatusView>) -> Seq<StatusView> {
    if problems.len() == 0 { just_pass() } else { problems }
}

impl Status {
    /// A passing status.
    pub fn pass() -> (s: Status)
        ensures
            s.deep_view() == pass_view(),
    {
        Status { severity: StatusCode::Pass, code: None, message: None }
    }

    /// A status with the given severity, code and message.
    pub fn new(severity: StatusCode, code: &str, message: String) -> (s: Status)
        ensures
            s.deep_view() == status_view(severity, code@, message@),
    {
        Status { severity, code: Some(code.to_string()), message: Some(message) }
    }
}

/// A result list holding one passing status.
pub fn just_one_pass() -> (v: Vec<Status>)
    ensures
        v.deep_view() == just_pass(),
{
    let mut v = Vec::new();
    v.push(Status::pass());
    proof { assert(v.deep_view() =~= just_pass()); }
    v
}

/// A result list holding one status with the given severity, code and message.
pub fn just_one(severity: StatusCode, code: &str, message: String) -> (v: Vec<Status>)
    ensures
        v.deep_view() == just_one_view(severity, code@, message@),
{
    let mut v = Vec::new();
    v.push(Status::new(severity, code, message));
    proof { assert(v.deep_view() =~= just_one_view(severity, code@, message@)); }
    v
}

/// The results of a check from the problems it found: a single pass when
/// there are none.
pub fn return_result(problems: Vec<Status>) -> (v: Vec<Status>)
    ensures
        v.deep_view() == result_of(problems.deep_view()),
{
    if problems.len() == 0 {
        just_one_pass()
    } else {
        problems
    }
}

/// How many items a long bullet list shows unless full lists are asked for.
pub const BULLET_LIST_LIMIT: usize = 10;

/// Items as bullet points: each line is `* ` and the item, lines joined
/// by a newline.
pub open spec fn bullets(items: Seq<Seq<char>>) -> Seq<char>
    decreases items.len(),
{
    if items.len() == 0 {
        Seq::empty()
    } else if items.len() == 1 {
        "* "@ + items[0]
    } else {
        bullets(items.drop_last()) + "\n* "@ + items.last()
    }
}

/// The items shown in a bullet list: all of them with `full_lists` or when
/// there are at most ten; otherwise the first ten and a line that counts
/// the rest.
pub open spec fn shown_items(items: Seq<Seq<char>>, full_lists: bool) -> Seq<Seq<char>> {
    if full_lists || items.len() <= BULLET_LIST_LIMIT {
        items
    } else {
        items.take(BULLET_LIST_LIMIT as int).push(
            "and "@ + decimal((items.len() - BULLET_LIST_LIMIT) as nat) + " more."@,
        )
    }
}

/// A bullet list of `items`, shortened unless `full_lists` is set.
pub open spec fn bullet_list_spec(items: Seq<Seq<char>>, full_lists: bool) -> Seq<char> {
    bullets(shown_items(items, full_lists))
}

/// Formats `items` as a bullet list, one `* item` per line; more than ten
/// items are cut to ten and a line `* and N more.` unless `full_lists`.
pub fn bullet_list(items: &Vec<String>, full_lists: bool) -> (s: String)
    ensures
        s@ == bullet_list_spec(items.deep_view(), full_lists),
{
    let ghost all = items.deep_view();
    let n: usize = if full_lists || items.len() <= BULLET_LIST_LIMIT { items.len() } else { BULLET_LIST_LIMIT };
    let mut s = String::new();
    let mut i: usize = 0;
    while i < n
        invariant
            all == items.deep_view(),
            n <= items.len(),
            i <= n,
            s@ == bullets(all.take(i as int)),
        decreases n - i,
    {
        if i > 0 {
            s.append("\n");
        }
        s.append("* ");
        s.append(items[i].as_str());
        proof {
            let t = all.take(i + 1);
            assert(t.drop_last() =~= all.take(i as int));
            assert(t.last() == items@[i as int]@);
            reveal_strlit("\n");
            reveal_strlit("* ");
            reveal_strlit("\n* ");
            assert(s@ =~= bullets(t));
        }
        i = i + 1;
    }
    if n < items.len() {
        let mut last = String::new();
        last.append("and ");
        push_decimal(&mut last, (items.len() - BULLET_LIST_LIMIT) as u64);
        last.append(" more.");
        s.append("\n* ");
        s.append(last.as_str());
        proof {
            let shown = shown_items(all, full_lists);
            assert(shown.drop_last() =~= all.take(n as int));
            reveal_strlit("\n* ");
            assert(s@ =~= bullets(shown));
        }
    } else {
        proof { assert(all.take(n as int) =~= all); }
    }
    s
}

} // verus!
