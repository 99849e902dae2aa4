use vstd::prelude::*;
use vstd::string::*;

verus! {

/// Takes the first `lenght` characters of `text` and appends an ellipsis
/// marker, bounding the width of a table cell.
pub fn split_str(text: String, lenght: u16) -> (r: String)
    requires
        lenght as int <= text@.len(),
    ensures
        r@ == text@.subrange(0, lenght as int) + "..."@,
{
    let prefix: String = String::from_str(text.as_str().substring_char(0, lenght as usize));
    prefix.concat("...")
}

/// The number of terminal columns a string occupies when drawn.
pub uninterp spec fn display_width(s: Seq<char>) -> nat;

/// Relies on unicode_width's `UnicodeWidthStr::width`: the displayed column
/// count of a string, a function of its characters alone; an empty string
/// occupies no column.
#[verifier::external_body]
pub(crate) fn str_width(s: &str) -> (r: usize)
    ensures
        r as nat == display_width(s@),
        s@.len() == 0 ==> r == 0,
{
    unicode_width::UnicodeWidthStr::width(s)
}

/// Index of the first line feed in `s`, or `s.len()` when there is none.
pub open spec fn first_nl(s: Seq<char>) -> nat
    decreases s.len(),
{
    if s.len() == 0 {
        0
    } else if s[0] == '\n' {
        0
    } else {
        1 + first_nl(s.drop_first())
    }
}

/// A line split off before a line feed loses one trailing carriage return,
/// so that a CRLF ending counts as one line break.
pub open spec fn strip_cr(line: Seq<char>) -> Seq<char> {
    if line.len() > 0 && line.last() == '\r' {
        line.drop_last()
    } else {
        line
    }
}

/// The lines of a string: segments between line feeds, each with a trailing
/// carriage return removed; a trailing line feed opens no further line.
pub open spec fn lines_spec(s: Seq<char>) -> Seq<Seq<char>>
    decreases s.len(),
{
    if s.len() == 0 {
        Seq::empty()
    } else if first_nl(s) >= s.len() {
        seq![s]
    } else {
        seq![strip_cr(s.subrange(0, first_nl(s) as int))] + lines_spec(
            s.subrange(first_nl(s) as int + 1, s.len() as int),
        )
    }
}

proof fn lemma_first_nl_is(s: Seq<char>, i: int)
    requires
        0 <= i <= s.len(),
        forall|j: int| 0 <= j < i ==> s[j] != '\n',
        i < s.len() ==> s[i] == '\n',
    ensures
        first_nl(s) == i,
    decreases i,
{
    if s.len() == 0 {
    } else if s[0] == '\n' {
        assert(i == 0);
    } else {
        assert(i >= 1);
        let t = s.drop_first();
        assert forall|j: int| 0 <= j < i - 1 implies t[j] != '\n' by {
            assert(t[j] == s[j + 1]);
        }
        assert(i - 1 < t.len() ==> t[i - 1] == '\n');
        lemma_first_nl_is(t, i - 1);
    }
}

/// Splits a string into its lines, as [`lines_spec`] states them.
pub fn split_lines(s: &str) -> (r: Vec<String>)
    ensures
        r.deep_view() == lines_spec(s@),
    decreases s@.len(),
{
    let n: usize = s.unicode_len();
    if n == 0 {
        let r: Vec<String> = Vec::new();
        proof {
            assert(r.deep_view() =~= lines_spec(s@));
        }
        return r;
    }
    let mut i: usize = 0;
    while i < n && s.get_char(i) != '\n'
        invariant
            i <= n,
            n == s@.len(),
            forall|j: int| 0 <= j < i ==> s@[j] != '\n',
        decreases n - i,
    {
        i = i + 1;
    }
    proof {
        lemma_first_nl_is(s@, i as int);
    }
    if i == n {
        let mut r: Vec<String> = Vec::new();
        r.push(String::from_str(s));
        proof {
            assert(r.deep_view() =~= lines_spec(s@));
        }
        r
    } else {
        let head_end: usize = if i > 0 && s.get_char(i - 1) == '\r' {
            i - 1
        } else {
            i
        };
        let head: String = String::from_str(s.substring_char(0, head_end));
        let tail: &str = s.substring_char(i + 1, n);
        let mut r: Vec<String> = Vec::new();
        r.push(head);
        let mut rest: Vec<String> = split_lines(tail);
        let ghost rest_view: Seq<Seq<char>> = rest.deep_view();
        let ghost rest_elems: Seq<String> = rest@;
        r.append(&mut rest);
        proof {
            assert(head@ =~= strip_cr(s@.subrange(0, i as int))) by {
                if i > 0 && s@[i - 1] == '\r' {
                    assert(s@.subrange(0, i as int).last() == '\r');
                    assert(s@.subrange(0, i as int).drop_last() =~= s@.subrange(0, i - 1));
                } else {
                    if s@.subrange(0, i as int).len() > 0 && s@.subrange(0, i as int).last()
                        == '\r' {
                        assert(s@[i - 1] == '\r');
                    }
                }
            }
            assert(tail@ == s@.subrange(i + 1, n as int));
            assert forall|k: int| 0 <= k < r@.len() implies r.deep_view()[k] == (seq![head@]
                + rest_view)[k] by {
                assert(r.deep_view()[k] == r@[k].deep_view());
                if k >= 1 {
                    assert(r@[k] == rest_elems[k - 1]);
                    assert(rest_view[k - 1] == rest_elems[k - 1].deep_view());
                }
            }
            assert(r.deep_view() =~= seq![head@] + rest_view);
            assert(r.deep_view() =~= lines_spec(s@));
        }
        r
    }
}

} // verus!
