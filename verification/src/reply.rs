//! Replies of the daemon to a command.
//!
//! A reply is a sequence of lines. Every line carries a status code and some
//! data; all lines but the last are marked as continued. Status 250 means
//! that the daemon did what it was asked to do.

use vstd::prelude::*;

verus! {

/// The status code of a reply that reports success.
pub const STATUS_OK: u16 = 250;

pub const QUOTE: u8 = 0x22;

pub const EQUALS: u8 = 0x3d;

/// One line of a reply.
#[derive(Clone, Debug, PartialEq, Eq)]
pub struct ReplyLine {
    pub status_code: u16,
    pub data: Vec<u8>,
    /// Whether another line of the same reply follows.
    pub continued: bool,
}

/// A reply line with its data as a sequence of bytes.
pub struct ReplyLineView {
    pub status_code: u16,
    pub data: Seq<u8>,
    pub continued: bool,
}

impl View for ReplyLine {
    type V = ReplyLineView;

    open spec fn view(&self) -> ReplyLineView {
        ReplyLineView { status_code: self.status_code, data: self.data@, continued: self.continued }
    }
}

/// The views of the lines of a reply, in order.
pub open spec fn line_views(lines: Seq<ReplyLine>) -> Seq<ReplyLineView> {
    Seq::new(lines.len(), |i: int| lines[i]@)
}

/// A full reply has at least one line, and its last line is the only one
/// that is not continued.
pub open spec fn is_full_reply(lines: Seq<ReplyLineView>) -> bool {
    &&& lines.len() >= 1
    &&& forall|i: int| 0 <= i < lines.len() ==> ((#[trigger] lines[i]).continued <==> i + 1 < lines.len())
}

/// The status of a reply: the status code of the line that ends it. No
/// status where the lines are no full reply.
pub open spec fn reply_status(lines: Seq<ReplyLineView>) -> Option<u16> {
    if is_full_reply(lines) {
        Some(lines.last().status_code)
    } else {
        None
    }
}

/// The text without the quote characters at its start.
pub open spec fn trim_quotes_start(s: Seq<u8>) -> Seq<u8>
    decreases s.len(),
{
    if s.len() > 0 && s.first() == QUOTE {
        trim_quotes_start(s.drop_first())
    } else {
        s
    }
}

/// The text without the quote characters at its end.
pub open spec fn trim_quotes_end(s: Seq<u8>) -> Seq<u8>
    decreases s.len(),
{
    if s.len() > 0 && s.last() == QUOTE {
        trim_quotes_end(s.drop_last())
    } else {
        s
    }
}

/// The text without the quote characters that surround it.
pub open spec fn strip_quotes(s: Seq<u8>) -> Seq<u8> {
    trim_quotes_end(trim_quotes_start(s))
}

/// The value that a reply gives for an info key: what follows the key and an
/// equals sign in the data of the first line, without surrounding quotes. No
/// value where the first line is not about that key.
pub open spec fn info_value(lines: Seq<ReplyLineView>, key: Seq<u8>) -> Option<Seq<u8>> {
    if lines.len() >= 1 && key.push(EQUALS).is_prefix_of(lines[0].data) {
        Some(strip_quotes(lines[0].data.skip(key.len() as int + 1)))
    } else {
        None
    }
}

/// Whether the lines are a full reply, and its status if they are.
pub fn status_of(lines: &Vec<ReplyLine>) -> (status: Option<u16>)
    ensures
        status == reply_status(line_views(lines@)),
{
    let n = lines.len();
    if n == 0 {
        return None;
    }
    let mut i: usize = 0;
    while i < n
        invariant
            i <= n,
            n == lines.len(),
            forall|j: int| 0 <= j < i ==> ((#[trigger] line_views(lines@)[j]).continued <==> j + 1 < n),
        decreases n - i,
    {
        if lines[i].continued != (i + 1 < n) {
            assert(line_views(lines@)[i as int].continued == lines@[i as int].continued);
            return None;
        }
        assert(line_views(lines@)[i as int].continued == lines@[i as int].continued);
        i += 1;
    }
    assert(line_views(lines@).last() == lines@[n - 1]@);
    Some(lines[n - 1].status_code)
}

/// The text without the quote characters that surround it.
pub fn unquote(text: &[u8]) -> (bare: Vec<u8>)
    ensures
        bare@ == strip_quotes(text@),
{
    let n = text.len();
    let mut start: usize = 0;
    assert(text@.skip(0) =~= text@);
    while start < n && text[start] == QUOTE
        invariant
            start <= n,
            n == text.len(),
            trim_quotes_start(text@) == trim_quotes_start(text@.skip(start as int)),
        decreases n - start,
    {
        assert(text@.skip(start as int).drop_first() =~= text@.skip(start + 1));
        start += 1;
    }
    let mut end: usize = n;
    assert(text@.subrange(start as int, end as int) =~= text@.skip(start as int));
    while end > start && text[end - 1] == QUOTE
        invariant
            start <= end <= n,
            n == text.len(),
            trim_quotes_start(text@) == text@.skip(start as int),
            strip_quotes(text@) == trim_quotes_end(text@.subrange(start as int, end as int)),
        decreases end,
    {
        assert(text@.subrange(start as int, end as int).drop_last() =~= text@.subrange(
            start as int,
            end - 1,
        ));
        end -= 1;
    }
    let mut bare: Vec<u8> = Vec::new();
    let mut i: usize = start;
    while i < end
        invariant
            start <= i <= end <= n,
            n == text.len(),
            bare@ == text@.subrange(start as int, i as int),
        decreases end - i,
    {
        bare.push(text[i]);
        assert(bare@ =~= text@.subrange(start as int, i + 1));
        i += 1;
    }
    bare
}

/// Whether `text` begins with `head`.
fn starts_with(text: &[u8], head: &[u8]) -> (r: bool)
    ensures
        r == head@.is_prefix_of(text@),
{
    if head.len() > text.len() {
        return false;
    }
    let mut i: usize = 0;
    while i < head.len()
        invariant
            i <= head.len() <= text.len(),
            forall|j: int| 0 <= j < i ==> head@[j] == text@[j],
        decreases head.len() - i,
    {
        if head[i] != text[i] {
            assert(text@.subrange(0, head@.len() as int)[i as int] != head@[i as int]);
            return false;
        }
        i += 1;
    }
    assert(text@.subrange(0, head@.len() as int) =~= head@);
    true
}

/// Reads the value for an info key out of the lines of a reply.
pub fn read_info_value(lines: &Vec<ReplyLine>, key: &[u8]) -> (value: Option<Vec<u8>>)
    ensures
        match info_value(line_views(lines@), key@) {
            Some(bare) => value matches Some(v) && v@ == bare,
            None => value is None,
        },
{
    if lines.len() == 0 {
        return None;
    }
    let data = lines[0].data.as_slice();
    assert(line_views(lines@)[0].data == data@);
    let k = key.len();
    if data.len() <= k || data[k] != EQUALS || !starts_with(data, key) {
        proof {
            let head = key@.push(EQUALS);
            if head.is_prefix_of(data@) {
                assert(data@.subrange(0, head.len() as int)[k as int] == head[k as int]);
                assert(data@.subrange(0, k as int) =~= data@.subrange(0, head.len() as int).subrange(0, k as int));
                assert(head.subrange(0, k as int) =~= key@);
            }
        }
        return None;
    }
    assert(data@.subrange(0, k + 1) =~= data@.subrange(0, k as int).push(EQUALS));
    let rest = vstd::slice::slice_subrange(data, k + 1, data.len());
    assert(rest@ =~= data@.skip(k + 1));
    Some(unquote(rest))
}

} // verus!
