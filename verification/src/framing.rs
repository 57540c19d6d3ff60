//! The wire framing: one message is one newline-terminated line.
//!
//! A peer writer sends each payload as `payload + "\n"` under an exclusive
//! per-connection lock, so the receiving end sees whole frames one after the
//! other. [`lemma_frames_never_interleave`] states the byte-level half of
//! that guarantee: two newline-free payloads framed back to back split into
//! exactly those two lines again.

use vstd::prelude::*;

verus! {

/// `s` holds no line terminator of its own.
pub open spec fn line_free(s: Seq<char>) -> bool {
    forall|i: int| 0 <= i < s.len() ==> #[trigger] s[i] != '\n'
}

/// One frame: the payload with the line terminator appended.
pub open spec fn framed(payload: Seq<char>) -> Seq<char> {
    payload.push('\n')
}

pub open spec fn split_lines_from(s: Seq<char>, cur: Seq<char>) -> Seq<Seq<char>>
    decreases s.len(),
{
    if s.len() == 0 {
        if cur.len() == 0 {
            Seq::empty()
        } else {
            seq![cur]
        }
    } else if s[0] == '\n' {
        seq![cur] + split_lines_from(s.drop_first(), Seq::empty())
    } else {
        split_lines_from(s.drop_first(), cur.push(s[0]))
    }
}

/// The lines a receiver reads out of a byte stream: the stream split on the
/// line terminator, a trailing unterminated tail counting as one more line.
pub open spec fn split_lines(s: Seq<char>) -> Seq<Seq<char>> {
    split_lines_from(s, Seq::empty())
}

/// Decide exactly whether `s` holds a line terminator of its own.
pub fn is_line_free(s: &str) -> (r: bool)
    ensures
        r == line_free(s@),
{
    let n = s.unicode_len();
    let mut i: usize = 0;
    while i < n
        invariant
            n == s@.len(),
            i <= n,
            forall|j: int| 0 <= j < i ==> #[trigger] s@[j] != '\n',
        decreases n - i,
    {
        if s.get_char(i) == '\n' {
            return false;
        }
        i = i + 1;
    }
    true
}

/// Frame one payload for the wire.
pub fn frame_line(payload: &str) -> (r: String)
    ensures
        r@ == framed(payload@),
{
    let mut r = String::from_str(payload);
    r.append("\n");
    proof {
        reveal_strlit("\n");
        assert(r@ =~= framed(payload@));
    }
    r
}

proof fn lemma_split_one_frame(a: Seq<char>, rest: Seq<char>, cur: Seq<char>)
    requires
        line_free(a),
    ensures
        split_lines_from(framed(a) + rest, cur) == seq![cur + a] + split_lines_from(rest, Seq::empty()),
    decreases a.len(),
{
    let s = framed(a) + rest;
    if a.len() == 0 {
        assert(s[0] == '\n');
        assert(s.drop_first() =~= rest);
        assert(cur + a =~= cur);
    } else {
        assert(s[0] == a[0]);
        assert(a[0] != '\n');
        assert(s.drop_first() =~= framed(a.drop_first()) + rest);
        assert(line_free(a.drop_first()));
        lemma_split_one_frame(a.drop_first(), rest, cur.push(a[0]));
        assert(cur.push(a[0]) + a.drop_first() =~= cur + a);
    }
}

/// Two whole frames, written one after the other, are read back as exactly
/// the two payloads: neither line is cut short, merged, or corrupted.
pub proof fn lemma_frames_never_interleave(a: Seq<char>, b: Seq<char>)
    requires
        line_free(a),
        line_free(b),
    ensures
        split_lines(framed(a) + framed(b)) == seq![a, b],
{
    lemma_split_one_frame(a, framed(b), Seq::empty());
    assert(framed(b) + Seq::<char>::empty() =~= framed(b));
    lemma_split_one_frame(b, Seq::empty(), Seq::empty());
    assert(split_lines_from(Seq::<char>::empty(), Seq::<char>::empty()) =~= Seq::<Seq<char>>::empty());
    assert(Seq::<char>::empty() + a =~= a);
    assert(Seq::<char>::empty() + b =~= b);
    assert(split_lines(framed(a) + framed(b)) =~= seq![a, b]);
}

} // verus!
