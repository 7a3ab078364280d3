//! Text handling shared by the rest of the library: splitting into lines,
//! joining lines, trimming, decimal rendering and padding.
use vstd::prelude::*;
use vstd::utf8::is_char_boundary;
use vstd::string::StrSliceExecFns;
use vstd::string::StringExecFns;
use vstd::string::StringSliceAdditionalSpecFns;

verus! {

// ---------------------------------------------------------------------------
// Specifications
// ---------------------------------------------------------------------------

/// Unicode `White_Space` code points: what std's trimming functions remove.
pub open spec fn is_white_space(c: char) -> bool {
    let u = c as u32;
    ||| 0x09 <= u <= 0x0D
    ||| u == 0x20
    ||| u == 0x85
    ||| u == 0xA0
    ||| u == 0x1680
    ||| 0x2000 <= u <= 0x200A
    ||| u == 0x2028
    ||| u == 0x2029
    ||| u == 0x202F
    ||| u == 0x205F
    ||| u == 0x3000
}

/// `s` without its leading white space.
pub open spec fn trim_start_spec(s: Seq<char>) -> Seq<char>
    decreases s.len(),
{
    if s.len() > 0 && is_white_space(s[0]) {
        trim_start_spec(s.skip(1))
    } else {
        s
    }
}

/// `s` without its trailing white space.
pub open spec fn trim_end_spec(s: Seq<char>) -> Seq<char>
    decreases s.len(),
{
    if s.len() > 0 && is_white_space(s.last()) {
        trim_end_spec(s.drop_last())
    } else {
        s
    }
}

/// `s` without leading and trailing white space.
pub open spec fn trim_spec(s: Seq<char>) -> Seq<char> {
    trim_end_spec(trim_start_spec(s))
}

/// The pieces of `s` between `'\n'` characters; never empty
/// (`""` gives one empty piece, `"a\n"` gives `"a"` and `""`).
pub open spec fn split_newlines(s: Seq<char>) -> Seq<Seq<char>>
    decreases s.len(),
{
    if s.len() == 0 {
        seq![Seq::<char>::empty()]
    } else {
        let rest = split_newlines(s.drop_last());
        if s.last() == '\n' {
            rest.push(Seq::<char>::empty())
        } else {
            rest.update(rest.len() - 1, rest.last().push(s.last()))
        }
    }
}

/// One trailing `'\r'` removed, if there is one.
pub open spec fn strip_cr(t: Seq<char>) -> Seq<char> {
    if t.len() > 0 && t.last() == '\r' {
        t.drop_last()
    } else {
        t
    }
}

/// The lines of `s` as std's `str::lines` yields them: pieces between
/// `'\n'`, a piece that a `'\n'` ends loses one trailing `'\r'`, and an
/// empty final piece is not a line.
pub open spec fn lines_spec(s: Seq<char>) -> Seq<Seq<char>> {
    let pieces = split_newlines(s);
    let kept = if pieces.last().len() == 0 {
        pieces.drop_last()
    } else {
        pieces
    };
    Seq::new(
        kept.len(),
        |i: int|
            if i < pieces.len() - 1 {
                strip_cr(kept[i])
            } else {
                kept[i]
            },
    )
}

/// The lines of `ls` joined with `'\n'` between neighbours.
pub open spec fn join_newlines(ls: Seq<Seq<char>>) -> Seq<char>
    decreases ls.len(),
{
    if ls.len() == 0 {
        Seq::<char>::empty()
    } else if ls.len() == 1 {
        ls[0]
    } else {
        join_newlines(ls.drop_last()) + seq!['\n'] + ls.last()
    }
}

/// The views of a sequence of strings.
pub open spec fn views(v: Seq<String>) -> Seq<Seq<char>> {
    v.map_values(|s: String| s@)
}

/// The character of a decimal digit `d < 10`.
pub open spec fn digit_char(d: nat) -> char {
    (d + 48) as char
}

/// The decimal rendering of `n`, without sign or leading zeros.
pub open spec fn decimal(n: nat) -> Seq<char>
    decreases n,
{
    if n < 10 {
        seq![digit_char(n)]
    } else {
        decimal(n / 10).push(digit_char(n % 10))
    }
}

/// `n` copies of the space character.
pub open spec fn spaces(n: nat) -> Seq<char> {
    Seq::new(n, |i: int| ' ')
}

/// `s` followed by spaces up to `width` characters (unchanged when longer).
pub open spec fn pad_end_spec(s: Seq<char>, width: nat) -> Seq<char> {
    if s.len() < width {
        s + spaces((width - s.len()) as nat)
    } else {
        s
    }
}

/// `s` preceded by spaces up to `width` characters (unchanged when longer).
pub open spec fn pad_start_spec(s: Seq<char>, width: nat) -> Seq<char> {
    if s.len() < width {
        spaces((width - s.len()) as nat) + s
    } else {
        s
    }
}

/// The last `n` elements of `ls` (all of them when there are fewer).
pub open spec fn last_n<A>(ls: Seq<A>, n: nat) -> Seq<A> {
    if ls.len() <= n {
        ls
    } else {
        ls.subrange(ls.len() - n, ls.len() as int)
    }
}

/// Index of the first element of `s` at or after `i` that satisfies `p`.
pub open spec fn first_match_from<A>(s: Seq<A>, p: spec_fn(A) -> bool, i: int) -> Option<int>
    decreases s.len() - i,
{
    if i < 0 || i >= s.len() {
        None
    } else if p(s[i]) {
        Some(i)
    } else {
        first_match_from(s, p, i + 1)
    }
}

/// What `first_match_from` finds: the least index at or after `i` whose
/// element satisfies `p`, or nothing when no such index exists.
pub proof fn lemma_first_match_from<A>(s: Seq<A>, p: spec_fn(A) -> bool, i: int)
    requires
        0 <= i,
    ensures
        match first_match_from(s, p, i) {
            Some(k) => {
                &&& i <= k < s.len()
                &&& p(s[k])
                &&& forall|j: int| i <= j < k ==> !p(#[trigger] s[j])
            },
            None => forall|j: int| i <= j < s.len() ==> !p(#[trigger] s[j]),
        },
    decreases s.len() - i,
{
    if i < s.len() && !p(s[i]) {
        lemma_first_match_from(s, p, i + 1);
    }
}

/// The name of std's `str::to_lowercase` result: the Unicode lower-case
/// mapping of a whole string.
pub uninterp spec fn lowercase_of(s: Seq<char>) -> Seq<char>;

// ---------------------------------------------------------------------------
// Facts about splitting and joining lines
// ---------------------------------------------------------------------------

/// Whether `s` holds no `'\n'`.
pub open spec fn no_newline(s: Seq<char>) -> bool {
    forall|i: int| 0 <= i < s.len() ==> s[i] != '\n'
}

/// Splitting always gives at least one piece, and no piece holds a `'\n'`.
pub proof fn lemma_split_newlines_pieces(s: Seq<char>)
    ensures
        split_newlines(s).len() >= 1,
        forall|k: int| 0 <= k < split_newlines(s).len() ==> no_newline(#[trigger] split_newlines(s)[k]),
    decreases s.len(),
{
    if s.len() > 0 {
        lemma_split_newlines_pieces(s.drop_last());
        let rest = split_newlines(s.drop_last());
        if s.last() != '\n' {
            let last = rest.last().push(s.last());
            assert(no_newline(rest[rest.len() - 1]));
            assert(no_newline(last));
            assert forall|k: int| 0 <= k < split_newlines(s).len() implies no_newline(
                #[trigger] split_newlines(s)[k],
            ) by {
                if k == rest.len() - 1 {
                    assert(split_newlines(s)[k] == last);
                } else {
                    assert(split_newlines(s)[k] == rest[k]);
                }
            }
        } else {
            assert forall|k: int| 0 <= k < split_newlines(s).len() implies no_newline(
                #[trigger] split_newlines(s)[k],
            ) by {
                if k < rest.len() {
                    assert(split_newlines(s)[k] == rest[k]);
                }
            }
        }
    }
}

/// A text without `'\n'` is a single piece.
pub proof fn lemma_split_single(s: Seq<char>)
    requires
        no_newline(s),
    ensures
        split_newlines(s) == seq![s],
    decreases s.len(),
{
    if s.len() > 0 {
        lemma_split_single(s.drop_last());
        assert(s.drop_last().push(s.last()) == s);
        assert(split_newlines(s) =~= seq![s]);
    } else {
        assert(s =~= Seq::<char>::empty());
    }
}

/// Splitting `a`, `'\n'`, `b` gives the pieces of `a` followed by those of `b`.
pub proof fn lemma_split_concat(a: Seq<char>, b: Seq<char>)
    ensures
        split_newlines(a + seq!['\n'] + b) == split_newlines(a) + split_newlines(b),
    decreases b.len(),
{
    let s = a + seq!['\n'] + b;
    lemma_split_newlines_pieces(a);
    if b.len() == 0 {
        assert(s.drop_last() == a);
        assert(split_newlines(s) =~= split_newlines(a) + split_newlines(b));
    } else {
        let b0 = b.drop_last();
        assert(s.drop_last() == a + seq!['\n'] + b0);
        lemma_split_concat(a, b0);
        lemma_split_newlines_pieces(b0);
        let rest = split_newlines(s.drop_last());
        let ra = split_newlines(a);
        let rb = split_newlines(b0);
        assert(rest == ra + rb);
        if b.last() == '\n' {
            assert(split_newlines(s) =~= ra + split_newlines(b));
        } else {
            assert(rest.last() == rb.last());
            assert(split_newlines(s) =~= ra + split_newlines(b));
        }
    }
}

/// Joining lines without `'\n'` and splitting again gives the lines back.
pub proof fn lemma_split_join(ls: Seq<Seq<char>>)
    requires
        ls.len() > 0,
        forall|k: int| 0 <= k < ls.len() ==> no_newline(#[trigger] ls[k]),
    ensures
        split_newlines(join_newlines(ls)) == ls,
    decreases ls.len(),
{
    if ls.len() == 1 {
        assert(no_newline(ls[0]));
        lemma_split_single(ls[0]);
        assert(seq![ls[0]] =~= ls);
    } else {
        let init = ls.drop_last();
        assert forall|k: int| 0 <= k < init.len() implies no_newline(#[trigger] init[k]) by {
            assert(init[k] == ls[k]);
        }
        lemma_split_join(init);
        assert(no_newline(ls[ls.len() - 1]));
        lemma_split_single(ls.last());
        lemma_split_concat(join_newlines(init), ls.last());
        assert(init + seq![ls.last()] =~= ls);
    }
}

/// No line of a text holds a `'\n'`.
pub proof fn lemma_lines_no_newline(s: Seq<char>)
    ensures
        forall|k: int| 0 <= k < lines_spec(s).len() ==> no_newline(#[trigger] lines_spec(s)[k]),
{
    lemma_split_newlines_pieces(s);
    let pieces = split_newlines(s);
    assert forall|k: int| 0 <= k < lines_spec(s).len() implies no_newline(
        #[trigger] lines_spec(s)[k],
    ) by {
        assert(no_newline(pieces[k]));
        if pieces[k].len() > 0 && pieces[k].last() == '\r' {
            assert(no_newline(pieces[k].drop_last()));
        }
    }
}

/// Reading back the lines of joined lines without `'\n'`: each line but the
/// last loses a trailing `'\r'`, and a non-empty last line stays as it is.
pub proof fn lemma_lines_of_join(ls: Seq<Seq<char>>)
    requires
        ls.len() > 0,
        forall|k: int| 0 <= k < ls.len() ==> no_newline(#[trigger] ls[k]),
    ensures
        lines_spec(join_newlines(ls)).len() >= ls.len() - 1,
        ls.last().len() > 0 ==> lines_spec(join_newlines(ls)).len() == ls.len(),
        forall|k: int|
            0 <= k < ls.len() - 1 ==> #[trigger] lines_spec(join_newlines(ls))[k] == strip_cr(ls[k]),
        ls.last().len() > 0 ==> lines_spec(join_newlines(ls))[ls.len() - 1] == ls.last(),
{
    lemma_split_join(ls);
}

/// Removing the last character of `t` leaves its trimmed form a prefix of
/// the trimmed form of `t`.
pub proof fn lemma_trim_start_drop_last(t: Seq<char>)
    requires
        t.len() > 0,
    ensures
        trim_start_spec(t.drop_last()).is_prefix_of(trim_start_spec(t)),
    decreases t.len(),
{
    if t.len() > 1 && is_white_space(t[0]) {
        assert(t.drop_last().skip(1) == t.skip(1).drop_last());
        lemma_trim_start_drop_last(t.skip(1));
    } else if t.len() == 1 {
        assert(t.drop_last().len() == 0);
    } else {
        assert(trim_start_spec(t.drop_last()) == t.drop_last());
    }
}

/// Whether `s` holds no `'\r'`.
pub open spec fn no_carriage_return(s: Seq<char>) -> bool {
    forall|i: int| 0 <= i < s.len() ==> s[i] != '\r'
}

/// The last piece of a text ending in `'\n'` is empty and follows the
/// pieces of the text before that `'\n'`; the last piece of a non-empty text
/// ending in another character is not empty.
pub proof fn lemma_split_newlines_last(s: Seq<char>)
    requires
        s.len() > 0,
    ensures
        s.last() == '\n' ==> split_newlines(s) == split_newlines(s.drop_last()).push(Seq::<char>::empty()),
        s.last() != '\n' ==> split_newlines(s).last().len() > 0,
{
    lemma_split_newlines_pieces(s.drop_last());
}

/// In a text without `'\r'`, no piece holds a `'\r'`.
pub proof fn lemma_split_newlines_no_cr(s: Seq<char>)
    requires
        no_carriage_return(s),
    ensures
        forall|k: int| 0 <= k < split_newlines(s).len() ==> no_carriage_return(#[trigger] split_newlines(s)[k]),
    decreases s.len(),
{
    lemma_split_newlines_pieces(s);
    if s.len() > 0 {
        let t = s.drop_last();
        assert(no_carriage_return(t));
        lemma_split_newlines_no_cr(t);
        lemma_split_newlines_pieces(t);
        let rest = split_newlines(t);
        assert forall|k: int| 0 <= k < split_newlines(s).len() implies no_carriage_return(
            #[trigger] split_newlines(s)[k],
        ) by {
            if k < rest.len() {
                assert(no_carriage_return(rest[k]));
            }
            if s.last() != '\n' && k == rest.len() - 1 {
                assert(split_newlines(s)[k] == rest.last().push(s.last()));
            }
        }
    }
}

/// The lines of a text without `'\r'` hold no `'\r'`; and its last line is
/// empty only when the text is a lone `'\n'` or ends in two of them.
pub proof fn lemma_lines_no_cr(s: Seq<char>)
    requires
        no_carriage_return(s),
    ensures
        forall|k: int| 0 <= k < lines_spec(s).len() ==> no_carriage_return(#[trigger] lines_spec(s)[k]),
        lines_spec(s).len() > 0 && lines_spec(s).last().len() == 0 ==> s == seq!['\n'] || (s.len()
            >= 2 && s[s.len() - 1] == '\n' && s[s.len() - 2] == '\n'),
{
    lemma_split_newlines_no_cr(s);
    lemma_split_newlines_pieces(s);
    let pieces = split_newlines(s);
    let ls = lines_spec(s);
    assert forall|k: int| 0 <= k < ls.len() implies no_carriage_return(#[trigger] ls[k]) by {
        assert(no_carriage_return(pieces[k]));
    }
    if ls.len() > 0 && ls.last().len() == 0 {
        if s.len() == 0 {
            assert(pieces =~= seq![Seq::<char>::empty()]);
        } else {
            lemma_split_newlines_last(s);
            if s.last() == '\n' {
                let t = s.drop_last();
                lemma_split_newlines_pieces(t);
                assert(ls.last() == strip_cr(pieces[pieces.len() - 2]));
                assert(pieces[pieces.len() - 2] == split_newlines(t).last());
                assert(no_carriage_return(pieces[pieces.len() - 2]));
                if t.len() == 0 {
                    assert(s =~= seq!['\n']);
                } else {
                    lemma_split_newlines_last(t);
                }
            }
        }
    }
}

/// Every character of a decimal rendering is a digit.
pub proof fn lemma_decimal_digits(n: nat)
    ensures
        decimal(n).len() > 0,
        forall|k: int| 0 <= k < decimal(n).len() ==> '0' <= #[trigger] decimal(n)[k] <= '9',
    decreases n,
{
    if n >= 10 {
        lemma_decimal_digits(n / 10);
    }
}

// ---------------------------------------------------------------------------
// Calls into std
// ---------------------------------------------------------------------------

/// Calls std's `str::lines` and copies each line out. std documents that lines
/// end at `'\n'` or `"\r\n"`, that the terminators are not part of the lines
/// and that the final terminator is optional, which `lines_spec` states.
#[verifier::external_body]
pub(crate) fn split_lines(s: &str) -> (ls: Vec<String>)
    ensures
        views(ls@) == lines_spec(s@),
{
    s.lines().map(|l| l.to_string()).collect()
}

/// Calls std's `str::trim_start`, which removes leading Unicode
/// `White_Space` characters.
#[verifier::external_body]
pub(crate) fn trim_start(s: &str) -> (t: &str)
    ensures
        t@ == trim_start_spec(s@),
{
    s.trim_start()
}

/// Calls std's `str::trim`, which removes leading and trailing Unicode
/// `White_Space` characters.
#[verifier::external_body]
pub(crate) fn trim(s: &str) -> (t: &str)
    ensures
        t@ == trim_spec(s@),
{
    s.trim()
}

/// Calls std's `str::starts_with` with a string pattern: whether `prefix`
/// is a prefix of `s`.
#[verifier::external_body]
pub(crate) fn starts_with(s: &str, prefix: &str) -> (b: bool)
    ensures
        b == prefix@.is_prefix_of(s@),
{
    s.starts_with(prefix)
}

/// Calls std's `str::to_lowercase`; the result is named, not stated.
#[verifier::external_body]
pub(crate) fn to_lowercase(s: &str) -> (t: String)
    ensures
        t@ == lowercase_of(s@),
{
    s.to_lowercase()
}

/// Calls std's `str` equality: whether both hold the same characters.
#[verifier::external_body]
pub(crate) fn str_eq(a: &str, b: &str) -> (r: bool)
    ensures
        r == (a@ == b@),
{
    a == b
}

/// Calls std's `String::push`, which appends one character.
#[verifier::external_body]
pub(crate) fn push_char(s: &mut String, c: char)
    ensures
        final(s)@ == old(s)@.push(c),
{
    s.push(c)
}

// ---------------------------------------------------------------------------
// Verified helpers
// ---------------------------------------------------------------------------

/// A fresh string with the characters of `s`.
pub fn owned(s: &str) -> (r: String)
    ensures
        r@ == s@,
{
    s.to_owned()
}

/// Appends `t` to `s`.
pub fn push_str(s: &mut String, t: &str)
    ensures
        final(s)@ == old(s)@ + t@,
{
    s.append(t);
}

/// `prefix`, `middle` and `suffix` one after the other.
pub fn framed(prefix: &str, middle: &str, suffix: &str) -> (r: String)
    ensures
        r@ == prefix@ + middle@ + suffix@,
{
    let mut r = owned(prefix);
    push_str(&mut r, middle);
    push_str(&mut r, suffix);
    r
}

/// `prefix` followed by `rest`.
pub fn prefixed(prefix: &str, rest: &str) -> (r: String)
    ensures
        r@ == prefix@ + rest@,
{
    let mut r = owned(prefix);
    push_str(&mut r, rest);
    r
}

/// The character of the digit `d`.
fn digit(d: u64) -> (c: char)
    requires
        d < 10,
    ensures
        c == digit_char(d as nat),
{
    let c: char = ((d as u8) + 48u8) as char;
    c
}

/// Appends the decimal rendering of `n` to `s`.
pub fn push_decimal(s: &mut String, n: u64)
    ensures
        final(s)@ == old(s)@ + decimal(n as nat),
    decreases n,
{
    if n >= 10 {
        push_decimal(s, n / 10);
    }
    let c = digit(n % 10);
    push_char(s, c);
    proof {
        if n >= 10 {
            assert(old(s)@ + decimal((n / 10) as nat) + seq![c] == old(s)@ + decimal(n as nat));
        } else {
            assert(old(s)@ + seq![c] == old(s)@ + decimal(n as nat));
        }
    }
}

/// The decimal rendering of `n`.
pub fn decimal_string(n: u64) -> (s: String)
    ensures
        s@ == decimal(n as nat),
{
    let mut s = String::new();
    push_decimal(&mut s, n);
    s
}

/// Appends `n` spaces to `s`.
fn push_spaces(s: &mut String, n: usize)
    ensures
        final(s)@ == old(s)@ + spaces(n as nat),
{
    let ghost start = s@;
    let mut i: usize = 0;
    while i < n
        invariant
            i <= n,
            s@ == start + spaces(i as nat),
        decreases n - i,
    {
        push_char(s, ' ');
        assert(spaces((i + 1) as nat) == spaces(i as nat).push(' '));
        i = i + 1;
    }
}

/// `s` padded with spaces on the right to `width` characters.
pub fn pad_end(s: &str, width: usize) -> (r: String)
    ensures
        r@ == pad_end_spec(s@, width as nat),
{
    let len = s.unicode_len();
    let mut r = owned(s);
    if len < width {
        push_spaces(&mut r, width - len);
    }
    r
}

/// `s` padded with spaces on the left to `width` characters.
pub fn pad_start(s: &str, width: usize) -> (r: String)
    ensures
        r@ == pad_start_spec(s@, width as nat),
{
    let len = s.unicode_len();
    let mut r = String::new();
    if len < width {
        push_spaces(&mut r, width - len);
    }
    push_str(&mut r, s);
    proof {
        if !(len < width) {
            assert(r@ == s@);
        }
    }
    r
}

/// The lines of `ls` joined with `'\n'` between neighbours.
pub fn join_lines(ls: &Vec<String>) -> (s: String)
    ensures
        s@ == join_newlines(views(ls@)),
{
    let mut s = String::new();
    let n = ls.len();
    let mut i: usize = 0;
    while i < n
        invariant
            n == ls@.len(),
            i <= n,
            s@ == join_newlines(views(ls@).take(i as int)),
        decreases n - i,
    {
        let ghost before = views(ls@).take(i as int);
        let ghost after = views(ls@).take(i + 1);
        assert(after.drop_last() == before);
        if i > 0 {
            push_char(&mut s, '\n');
        }
        push_str(&mut s, ls[i].as_str());
        proof {
            if i == 0 {
                assert(s@ == after[0]);
            }
        }
        i = i + 1;
    }
    assert(views(ls@).take(n as int) == views(ls@));
    s
}

/// The last `n` lines of `text`, joined with `'\n'`.
pub fn tail_lines(text: &str, n: usize) -> (s: String)
    ensures
        s@ == join_newlines(last_n(lines_spec(text@), n as nat)),
{
    let ls = split_lines(text);
    let len = ls.len();
    let start: usize = if len <= n { 0 } else { len - n };
    let mut kept: Vec<String> = Vec::new();
    let mut i: usize = start;
    while i < len
        invariant
            len == ls@.len(),
            start <= i <= len,
            views(kept@) == views(ls@).subrange(start as int, i as int),
        decreases len - i,
    {
        let ghost prev = kept@;
        let line = ls[i].clone();
        kept.push(line);
        assert(kept@ == prev.push(line));
        assert(views(kept@) == views(prev).push(line@));
        assert(views(ls@).subrange(start as int, i + 1) == views(ls@).subrange(start as int, i as int).push(views(ls@)[i as int]));
        assert(views(kept@) == views(ls@).subrange(start as int, i + 1));
        i = i + 1;
    }
    proof {
        if len <= n {
            assert(views(ls@).subrange(0, len as int) == views(ls@));
        }
    }
    join_lines(&kept)
}

/// The first `min(bytes, 200)` bytes of `text` when that cut falls between
/// two characters, `None` when it falls inside one.
pub fn body_excerpt(text: &str) -> (r: Option<&str>)
    ensures
        ({
            let bytes = text.spec_bytes();
            let cut = if text.len() < 200 { text.len() as int } else { 200 };
            &&& r is Some <==> is_char_boundary(bytes, cut)
            &&& r matches Some(e) ==> e.spec_bytes() == bytes.subrange(0, cut)
        }),
{
    proof {
        vstd::utf8::encode_utf8_valid_utf8(text@);
    }
    let len = text.len();
    let cut: usize = if len < 200 { len } else { 200 };
    if text.is_char_boundary(cut) {
        let (head, _) = text.split_at(cut);
        Some(head)
    } else {
        None
    }
}

} // verus!
