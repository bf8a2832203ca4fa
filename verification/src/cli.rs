//! The decisions of the command-line program: which server to reach, how a
//! listing is printed, and how the user's answer to the trust prompt is read.
use vstd::prelude::*;

use crate::protocol::FileEntry;
use crate::text::{decimal, spec_decimal};

verus! {

/// What the client is asked to do once connected.
#[derive(Debug, Clone, PartialEq, Eq)]
pub enum Action {
    List { path: String },
    Download { remote: String, local: String, resume: bool },
    Upload { local: String, remote: String, resume: bool },
}

/// How the server to connect to was given.
#[derive(Debug, Clone, PartialEq, Eq)]
pub enum Target {
    /// An address to connect to as it is.
    Address(String),
    /// A device name to look up on the local network.
    Name(String),
}

/// Why the target options do not name one server.
#[derive(Debug, Clone, Copy, PartialEq, Eq)]
pub enum TargetError {
    /// Both `--addr` and `--name` were given.
    Both,
    /// Neither was given.
    Neither,
}

/// Reads the `--addr` and `--name` options: exactly one of them must be given.
pub fn resolve_target(addr: Option<String>, name: Option<String>) -> (r: Result<Target, TargetError>)
    ensures
        match (addr, name) {
            (Some(a), None) => r == Ok::<_, TargetError>(Target::Address(a)),
            (None, Some(n)) => r == Ok::<_, TargetError>(Target::Name(n)),
            (Some(_), Some(_)) => r == Err::<Target, _>(TargetError::Both),
            (None, None) => r == Err::<Target, _>(TargetError::Neither),
        },
{
    match (addr, name) {
        (Some(a), None) => Ok(Target::Address(a)),
        (None, Some(n)) => Ok(Target::Name(n)),
        (Some(_), Some(_)) => Err(TargetError::Both),
        (None, None) => Err(TargetError::Neither),
    }
}

/// `count` spaces.
pub open spec fn spaces(count: nat) -> Seq<char>
    decreases count,
{
    if count == 0 {
        seq![]
    } else {
        spaces((count - 1) as nat).push(' ')
    }
}

/// `s` right-aligned in a field of `width` characters, as `{:>width}` writes it.
pub open spec fn pad_left(s: Seq<char>, width: nat) -> Seq<char> {
    if s.len() < width {
        spaces((width - s.len()) as nat) + s
    } else {
        s
    }
}

fn pad_left_exec(s: String, width: usize) -> (r: String)
    ensures
        r@ == pad_left(s@, width as nat),
{
    let n = s.as_str().unicode_len();
    if n >= width {
        return s;
    }
    let mut r = String::new();
    let mut i: usize = 0;
    proof {
        reveal_strlit(" ");
    }
    while i < width - n
        invariant
            n < width,
            n == s@.len(),
            i <= width - n,
            r@ == spaces(i as nat),
        decreases width - n - i,
    {
        proof {
            reveal_strlit(" ");
        }
        r.append(" ");
        i = i + 1;
        assert(r@ =~= spaces(i as nat));
    }
    r.append(s.as_str());
    r
}

/// The label of an entry's kind in a listing, four characters wide.
pub open spec fn kind_label(is_dir: bool) -> Seq<char> {
    if is_dir { "DIR "@ } else { "FILE"@ }
}

/// The line that shows one entry of a listing: its kind, its size
/// right-aligned in ten columns, and its name.
pub fn listing_line(entry: &FileEntry) -> (r: String)
    ensures
        r@ == kind_label(entry.is_dir) + "  "@ + pad_left(spec_decimal(entry.size as nat), 10) + "  "@ + entry.name@,
{
    let mut r = if entry.is_dir { "DIR ".to_owned() } else { "FILE".to_owned() };
    r.append("  ");
    let size = pad_left_exec(decimal(entry.size), 10);
    r.append(size.as_str());
    r.append("  ");
    r.append(entry.name.as_str());
    r
}

// -------- the trust prompt --------

/// The characters that `char::is_whitespace` accepts (Unicode White_Space).
pub open spec fn is_white(c: char) -> bool {
    ||| ('\u{9}' <= c && c <= '\u{d}')
    ||| c == ' '
    ||| c == '\u{85}'
    ||| c == '\u{a0}'
    ||| c == '\u{1680}'
    ||| ('\u{2000}' <= c && c <= '\u{200a}')
    ||| c == '\u{2028}'
    ||| c == '\u{2029}'
    ||| c == '\u{202f}'
    ||| c == '\u{205f}'
    ||| c == '\u{3000}'
}

/// `s` without leading white space.
pub open spec fn trim_front(s: Seq<char>) -> Seq<char>
    decreases s.len(),
{
    if s.len() > 0 && is_white(s[0]) {
        trim_front(s.drop_first())
    } else {
        s
    }
}

/// `s` without trailing white space.
pub open spec fn trim_back(s: Seq<char>) -> Seq<char>
    decreases s.len(),
{
    if s.len() > 0 && is_white(s.last()) {
        trim_back(s.drop_last())
    } else {
        s
    }
}

/// `s` without white space at either end, as `str::trim` gives it.
pub open spec fn trimmed(s: Seq<char>) -> Seq<char> {
    trim_back(trim_front(s))
}

/// `c` is `lower` or its upper-case form; `lower` is an ASCII letter.
pub open spec fn letter_is(c: char, lower: char) -> bool {
    c == lower || c as int == lower as int - 32
}

/// Whether an answer to the trust prompt is a yes: after trimming, it is
/// `y` or `yes` in any mix of case.
pub open spec fn spec_is_yes(answer: Seq<char>) -> bool {
    let t = trimmed(answer);
    ||| (t.len() == 1 && letter_is(t[0], 'y'))
    ||| (t.len() == 3 && letter_is(t[0], 'y') && letter_is(t[1], 'e') && letter_is(t[2], 's'))
}

fn is_white_exec(c: char) -> (b: bool)
    ensures
        b == is_white(c),
{
    ('\u{9}' <= c && c <= '\u{d}') || c == ' ' || c == '\u{85}' || c == '\u{a0}' || c == '\u{1680}'
        || ('\u{2000}' <= c && c <= '\u{200a}') || c == '\u{2028}' || c == '\u{2029}' || c == '\u{202f}'
        || c == '\u{205f}' || c == '\u{3000}'
}

proof fn lemma_trim_front_skip(s: Seq<char>, i: int)
    requires
        0 <= i <= s.len(),
        forall|j: int| 0 <= j < i ==> is_white(s[j]),
    ensures
        trim_front(s) == trim_front(s.skip(i)),
    decreases i,
{
    if i > 0 {
        assert(is_white(s[0]));
        assert(s.drop_first().skip(i - 1) =~= s.skip(i));
        assert forall|j: int| 0 <= j < i - 1 implies is_white(s.drop_first()[j]) by {
            assert(s.drop_first()[j] == s[j + 1]);
        }
        lemma_trim_front_skip(s.drop_first(), i - 1);
    } else {
        assert(s.skip(0) =~= s);
    }
}

proof fn lemma_trim_back_take(s: Seq<char>, k: int)
    requires
        0 <= k <= s.len(),
        forall|j: int| k <= j < s.len() ==> is_white(s[j]),
    ensures
        trim_back(s) == trim_back(s.take(k)),
    decreases s.len() - k,
{
    if k < s.len() {
        assert(s.drop_last().take(k) =~= s.take(k));
        lemma_trim_back_take(s.drop_last(), k);
    } else {
        assert(s.take(k) =~= s);
    }
}

fn lower_letter_is(c: char, lower: char) -> (b: bool)
    requires
        'a' <= lower <= 'z',
    ensures
        b == letter_is(c, lower),
{
    c == lower || (c as u32) + 32 == (lower as u32)
}

/// Whether the user's answer to the trust prompt means yes.
pub fn is_affirmative(answer: &str) -> (b: bool)
    ensures
        b == spec_is_yes(answer@),
{
    let len = answer.unicode_len();
    let mut start: usize = 0;
    while start < len && is_white_exec(answer.get_char(start))
        invariant
            len == answer@.len(),
            start <= len,
            forall|j: int| 0 <= j < start ==> is_white(answer@[j]),
        decreases len - start,
    {
        start = start + 1;
    }
    proof {
        lemma_trim_front_skip(answer@, start as int);
        assert(trim_front(answer@.skip(start as int)) == answer@.skip(start as int));
    }
    let mut end: usize = len;
    let ghost rest = answer@.skip(start as int);
    while end > start && is_white_exec(answer.get_char(end - 1))
        invariant
            len == answer@.len(),
            start <= end <= len,
            rest == answer@.skip(start as int),
            forall|j: int| end - start <= j < rest.len() ==> is_white(rest[j]),
        decreases end - start,
    {
        end = end - 1;
    }
    proof {
        lemma_trim_back_take(rest, end - start);
        let t = rest.take(end - start);
        assert(trim_back(t) == t);
        assert(trimmed(answer@) == t);
        assert(t =~= answer@.subrange(start as int, end as int));
    }
    let n = end - start;
    if n == 1 {
        lower_letter_is(answer.get_char(start), 'y')
    } else if n == 3 {
        lower_letter_is(answer.get_char(start), 'y') && lower_letter_is(answer.get_char(start + 1), 'e')
            && lower_letter_is(answer.get_char(start + 2), 's')
    } else {
        false
    }
}

/// Every character of `w` is white space.
pub open spec fn all_white(w: Seq<char>) -> bool {
    forall|i: int| 0 <= i < w.len() ==> is_white(#[trigger] w[i])
}

proof fn lemma_trim_front_after_white(w: Seq<char>, x: Seq<char>)
    requires
        all_white(w),
    ensures
        trim_front(w + x) == trim_front(x),
{
    lemma_trim_front_skip(w + x, w.len() as int);
    assert((w + x).skip(w.len() as int) =~= x);
}

proof fn lemma_trim_back_before_white(y: Seq<char>, w: Seq<char>)
    requires
        all_white(w),
    ensures
        trim_back(y + w) == trim_back(y),
{
    lemma_trim_back_take(y + w, y.len() as int);
    assert((y + w).take(y.len() as int) =~= y);
}

proof fn lemma_trimmed_before_white(x: Seq<char>, w: Seq<char>)
    requires
        all_white(w),
    ensures
        trim_back(trim_front(x + w)) == trim_back(trim_front(x)),
    decreases x.len(),
{
    if x.len() == 0 {
        assert(x + w =~= w);
        lemma_trim_front_after_white(w, Seq::<char>::empty());
        assert(w + Seq::<char>::empty() =~= w);
    } else if is_white(x[0]) {
        assert((x + w).drop_first() =~= x.drop_first() + w);
        assert((x + w)[0] == x[0]);
        lemma_trimmed_before_white(x.drop_first(), w);
    } else {
        assert((x + w)[0] == x[0]);
        lemma_trim_back_before_white(x, w);
    }
}

/// Whether an answer is a yes depends only on its trimmed text.
pub proof fn law_yes_depends_on_trimmed_text(a: Seq<char>, b: Seq<char>)
    requires
        trimmed(a) == trimmed(b),
    ensures
        spec_is_yes(a) == spec_is_yes(b),
{
}

/// White space around an answer (such as the newline that ends a typed
/// line) does not change whether it is a yes.
pub proof fn law_yes_ignores_surrounding_white_space(w1: Seq<char>, a: Seq<char>, w2: Seq<char>)
    requires
        all_white(w1),
        all_white(w2),
    ensures
        trimmed(w1 + a + w2) == trimmed(a),
        spec_is_yes(w1 + a + w2) == spec_is_yes(a),
{
    assert(w1 + a + w2 =~= w1 + (a + w2));
    lemma_trim_front_after_white(w1, a + w2);
    lemma_trimmed_before_white(a, w2);
}

/// `y` and `yes`, in either case and with any white space around them, are
/// a yes; `n`, `no`, `ye`, `yess`, and an empty answer, are not.
pub proof fn law_y_and_yes_are_yes(w1: Seq<char>, w2: Seq<char>)
    requires
        all_white(w1),
        all_white(w2),
    ensures
        spec_is_yes(w1 + seq!['y'] + w2),
        spec_is_yes(w1 + seq!['Y'] + w2),
        spec_is_yes(w1 + seq!['y', 'e', 's'] + w2),
        spec_is_yes(w1 + seq!['Y', 'E', 'S'] + w2),
        !spec_is_yes(w1 + seq!['n'] + w2),
        !spec_is_yes(w1 + seq!['n', 'o'] + w2),
        !spec_is_yes(w1 + seq!['y', 'e'] + w2),
        !spec_is_yes(w1 + seq!['y', 'e', 's', 's'] + w2),
        !spec_is_yes(w1 + w2),
{
    law_yes_ignores_surrounding_white_space(w1, seq!['n', 'o'], w2);
    law_yes_ignores_surrounding_white_space(w1, seq!['y', 'e'], w2);
    law_yes_ignores_surrounding_white_space(w1, seq!['y', 'e', 's', 's'], w2);
    let no = seq!['n', 'o'];
    assert(trim_front(no) == no);
    assert(trim_back(no) == no);
    let ye = seq!['y', 'e'];
    assert(trim_front(ye) == ye);
    assert(trim_back(ye) == ye);
    let yess = seq!['y', 'e', 's', 's'];
    assert(trim_front(yess) == yess);
    assert(trim_back(yess) == yess);
    law_yes_ignores_surrounding_white_space(w1, seq!['y'], w2);
    law_yes_ignores_surrounding_white_space(w1, seq!['Y'], w2);
    law_yes_ignores_surrounding_white_space(w1, seq!['y', 'e', 's'], w2);
    law_yes_ignores_surrounding_white_space(w1, seq!['Y', 'E', 'S'], w2);
    law_yes_ignores_surrounding_white_space(w1, seq!['n'], w2);
    law_yes_ignores_surrounding_white_space(w1, Seq::<char>::empty(), w2);
    assert(w1 + Seq::<char>::empty() + w2 =~= w1 + w2);
    let ys = seq!['y', 'e', 's'];
    assert(trim_front(ys) == ys);
    assert(trim_back(ys) == ys);
    let us = seq!['Y', 'E', 'S'];
    assert(trim_front(us) == us);
    assert(trim_back(us) == us);
    assert(trim_front(seq!['y']) == seq!['y']);
    assert(trim_back(seq!['y']) == seq!['y']);
    assert(trim_front(seq!['Y']) == seq!['Y']);
    assert(trim_back(seq!['Y']) == seq!['Y']);
    assert(trim_front(seq!['n']) == seq!['n']);
    assert(trim_back(seq!['n']) == seq!['n']);
}

} // verus!
