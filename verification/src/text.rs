//! Small text utilities: decimal rendering of numbers and whitespace
//! trimming.

use vstd::prelude::*;

verus! {

/// The character of a decimal digit.
pub open spec fn digit_char(d: nat) -> char
    recommends
        d < 10,
{
    if d == 0 {
        '0'
    } else if d == 1 {
        '1'
    } else if d == 2 {
        '2'
    } else if d == 3 {
        '3'
    } else if d == 4 {
        '4'
    } else if d == 5 {
        '5'
    } else if d == 6 {
        '6'
    } else if d == 7 {
        '7'
    } else if d == 8 {
        '8'
    } else {
        '9'
    }
}

/// The decimal notation of `n`, without leading zeros.
pub open spec fn decimal(n: nat) -> Seq<char>
    decreases n,
{
    if n < 10 {
        seq![digit_char(n)]
    } else {
        decimal(n / 10).push(digit_char(n % 10))
    }
}

fn digit_str(d: u64) -> (s: &'static str)
    requires
        d < 10,
    ensures
        s@ == seq![digit_char(d as nat)],
{
    proof {
        reveal_strlit("0");
        reveal_strlit("1");
        reveal_strlit("2");
        reveal_strlit("3");
        reveal_strlit("4");
        reveal_strlit("5");
        reveal_strlit("6");
        reveal_strlit("7");
        reveal_strlit("8");
        reveal_strlit("9");
    }
    if d == 0 {
        "0"
    } else if d == 1 {
        "1"
    } else if d == 2 {
        "2"
    } else if d == 3 {
        "3"
    } else if d == 4 {
        "4"
    } else if d == 5 {
        "5"
    } else if d == 6 {
        "6"
    } else if d == 7 {
        "7"
    } else if d == 8 {
        "8"
    } else {
        "9"
    }
}

/// Renders `n` in decimal.
pub fn decimal_string(n: u64) -> (s: String)
    ensures
        s@ == decimal(n as nat),
    decreases n,
{
    if n < 10 {
        digit_str(n).to_owned()
    } else {
        let head = decimal_string(n / 10);
        let tail = digit_str(n % 10);
        let s = head.concat(tail);
        proof {
            assert(s@ =~= decimal((n / 10) as nat).push(digit_char((n % 10) as nat)));
        }
        s
    }
}

/// Unicode's `White_Space` property, which `char::is_whitespace` computes:
/// the control characters from tab to carriage return, the space, next line,
/// no-break space, the Ogham space mark, the spaces from en quad to hair
/// space, the line and paragraph separators, the narrow no-break space, the
/// medium mathematical space and the ideographic space.
pub open spec fn unicode_whitespace(c: char) -> bool {
    let n = c as u32;
    ||| 0x09 <= n <= 0x0D
    ||| n == 0x20
    ||| n == 0x85
    ||| n == 0xA0
    ||| n == 0x1680
    ||| 0x2000 <= n <= 0x200A
    ||| n == 0x2028
    ||| n == 0x2029
    ||| n == 0x202F
    ||| n == 0x205F
    ||| n == 0x3000
}

/// Whether `c` has Unicode's `White_Space` property, as
/// `char::is_whitespace` tells.
fn is_whitespace(c: char) -> (b: bool)
    ensures
        b == unicode_whitespace(c),
{
    let n = c as u32;
    (0x09 <= n && n <= 0x0D) || n == 0x20 || n == 0x85 || n == 0xA0 || n == 0x1680 || (0x2000 <= n && n <= 0x200A)
        || n == 0x2028 || n == 0x2029 || n == 0x202F || n == 0x205F || n == 0x3000
}

/// `s` without the whitespace at its start and end.
pub open spec fn trimmed(s: Seq<char>) -> Seq<char>
    decreases s.len(),
{
    if s.len() > 0 && unicode_whitespace(s[0]) {
        trimmed(s.drop_first())
    } else if s.len() > 0 && unicode_whitespace(s.last()) {
        trimmed(s.drop_last())
    } else {
        s
    }
}

proof fn lemma_trimmed_range(s: Seq<char>, lo: int, hi: int)
    requires
        0 <= lo <= hi <= s.len(),
        forall|i: int| 0 <= i < lo ==> unicode_whitespace(#[trigger] s[i]),
        forall|i: int| hi <= i < s.len() ==> unicode_whitespace(#[trigger] s[i]),
        lo < hi ==> !unicode_whitespace(s[lo]) && !unicode_whitespace(s[hi - 1]),
    ensures
        trimmed(s) == s.subrange(lo, hi),
    decreases s.len(),
{
    if lo > 0 {
        let t = s.drop_first();
        assert forall|i: int| 0 <= i < lo - 1 implies unicode_whitespace(#[trigger] t[i]) by {
            assert(t[i] == s[i + 1]);
        }
        assert forall|i: int| hi - 1 <= i < t.len() implies unicode_whitespace(#[trigger] t[i]) by {
            assert(t[i] == s[i + 1]);
        }
        lemma_trimmed_range(t, lo - 1, hi - 1);
        assert(t.subrange(lo - 1, hi - 1) =~= s.subrange(lo, hi));
    } else if hi < s.len() {
        let t = s.drop_last();
        if s.len() > 0 && unicode_whitespace(s[0]) {
            assert(lo == hi);
            assert(hi == 0);
            let u = s.drop_first();
            assert forall|i: int| 0 <= i < u.len() implies unicode_whitespace(#[trigger] u[i]) by {
                assert(u[i] == s[i + 1]);
            }
            lemma_trimmed_range(u, 0, 0);
            assert(u.subrange(0, 0) =~= s.subrange(lo, hi));
        } else {
            assert forall|i: int| hi <= i < t.len() implies unicode_whitespace(#[trigger] t[i]) by {
                assert(t[i] == s[i]);
            }
            lemma_trimmed_range(t, lo, hi);
            assert(t.subrange(lo, hi) =~= s.subrange(lo, hi));
        }
    } else {
        assert(s.subrange(lo, hi) =~= s);
        if s.len() > 0 {
            assert(!unicode_whitespace(s[0]));
            assert(!unicode_whitespace(s.last()));
        }
    }
}

/// A trimmed text is empty, or starts and ends with a character that is not
/// whitespace.
pub proof fn lemma_trimmed_ends(s: Seq<char>)
    ensures
        trimmed(s).len() > 0 ==> !unicode_whitespace(trimmed(s)[0]) && !unicode_whitespace(
            trimmed(s).last(),
        ),
        trimmed(s).len() <= s.len(),
    decreases s.len(),
{
    if s.len() > 0 && unicode_whitespace(s[0]) {
        lemma_trimmed_ends(s.drop_first());
    } else if s.len() > 0 && unicode_whitespace(s.last()) {
        lemma_trimmed_ends(s.drop_last());
    }
}

/// Trimming a trimmed text leaves it as it is.
pub proof fn lemma_trimmed_idempotent(s: Seq<char>)
    ensures
        trimmed(trimmed(s)) == trimmed(s),
{
    lemma_trimmed_ends(s);
}

/// Removes the whitespace at the start and end of `s`.
pub fn trim(s: &str) -> (t: String)
    ensures
        t@ == trimmed(s@),
{
    let n = s.unicode_len();
    let mut lo: usize = 0;
    while lo < n && is_whitespace(s.get_char(lo))
        invariant
            n == s@.len(),
            lo <= n,
            forall|i: int| 0 <= i < lo ==> unicode_whitespace(#[trigger] s@[i]),
        decreases n - lo,
    {
        lo = lo + 1;
    }
    let mut hi: usize = n;
    while hi > lo && is_whitespace(s.get_char(hi - 1))
        invariant
            n == s@.len(),
            lo <= hi <= n,
            forall|i: int| hi <= i < n ==> unicode_whitespace(#[trigger] s@[i]),
        decreases hi,
    {
        hi = hi - 1;
    }
    proof {
        if lo < hi {
            assert(!unicode_whitespace(s@[lo as int]));
        }
        lemma_trimmed_range(s@, lo as int, hi as int);
    }
    s.substring_char(lo, hi).to_owned()
}

/// The lowercase of `s`, as `str::to_lowercase` maps it: each character to
/// its Unicode lowercase mapping, which may be several characters.
pub uninterp spec fn lowercase_text(s: Seq<char>) -> Seq<char>;

/// Calls `str::to_lowercase`.
#[verifier::external_body]
pub(crate) fn to_lowercase(s: &str) -> (r: String)
    ensures
        r@ == lowercase_text(s@),
{
    s.to_lowercase()
}

/// The words of `s`: its longest runs of characters that are not
/// whitespace, in order.
pub open spec fn words(s: Seq<char>) -> Seq<Seq<char>>
    decreases s.len(),
{
    if s.len() == 0 {
        Seq::empty()
    } else if unicode_whitespace(s.last()) {
        words(s.drop_last())
    } else if s.len() >= 2 && !unicode_whitespace(s[s.len() - 2]) {
        let w = words(s.drop_last());
        w.update(w.len() - 1, w.last().push(s.last()))
    } else {
        words(s.drop_last()).push(seq![s.last()])
    }
}

/// The words of `s`, as [`words`] gives them.
pub fn split_words(s: &str) -> (v: Vec<String>)
    ensures
        v@.map_values(|w: String| w@) == words(s@),
{
    let n = s.unicode_len();
    let mut v: Vec<String> = Vec::new();
    let mut start: usize = 0;
    let mut in_word = false;
    let mut i: usize = 0;
    while i < n
        invariant
            n == s@.len(),
            i <= n,
            start <= i,
            in_word ==> i > 0 && !unicode_whitespace(s@[i - 1]) && start < i,
            !in_word ==> i == 0 || unicode_whitespace(s@[i - 1]),
            in_word ==> forall|k: int| start <= k < i ==> !unicode_whitespace(#[trigger] s@[k]),
            in_word ==> start == 0 || unicode_whitespace(s@[start - 1]),
            words(s@.take(i as int)) == v@.map_values(|w: String| w@) + if in_word {
                seq![s@.subrange(start as int, i as int)]
            } else {
                Seq::<Seq<char>>::empty()
            },
        decreases n - i,
    {
        let c = s.get_char(i);
        let ws = is_whitespace(c);
        let ghost t = s@.take(i + 1);
        proof {
            assert(t.drop_last() =~= s@.take(i as int));
            assert(t.last() == c);
            if i > 0 {
                assert(t[t.len() - 2] == s@[i - 1]);
            }
        }
        if ws {
            if in_word {
                let ghost before = v@.map_values(|w: String| w@);
                let word = s.substring_char(start, i).to_owned();
                v.push(word);
                proof {
                    assert(v@.map_values(|w: String| w@) =~= before.push(s@.subrange(start as int, i as int)));
                }
                in_word = false;
            }
        } else {
            if !in_word {
                start = i;
                in_word = true;
                proof {
                    let vv = v@.map_values(|w: String| w@);
                    assert(words(t) == vv.push(seq![c]));
                    assert(s@.subrange(start as int, i + 1) =~= seq![c]);
                }
            } else {
                proof {
                    let vv = v@.map_values(|w: String| w@);
                    let w = words(s@.take(i as int));
                    assert(w == vv.push(s@.subrange(start as int, i as int)));
                    assert(s@.subrange(start as int, i as int).push(c) =~= s@.subrange(start as int, i + 1));
                    assert(w.update(w.len() - 1, w.last().push(c)) =~= vv.push(
                        s@.subrange(start as int, i + 1),
                    ));
                }
            }
        }
        i = i + 1;
    }
    proof {
        assert(s@.take(n as int) =~= s@);
    }
    if in_word {
        let ghost before = v@.map_values(|w: String| w@);
        let word = s.substring_char(start, n).to_owned();
        v.push(word);
        proof {
            assert(v@.map_values(|w: String| w@) =~= before.push(s@.subrange(start as int, n as int)));
        }
    }
    v
}

/// `parts` joined with `sep` between each two.
pub open spec fn joined(parts: Seq<Seq<char>>, sep: Seq<char>) -> Seq<char>
    decreases parts.len(),
{
    if parts.len() == 0 {
        Seq::empty()
    } else if parts.len() == 1 {
        parts[0]
    } else {
        joined(parts.drop_last(), sep) + sep + parts.last()
    }
}

/// `parts` joined with `sep`, as [`joined`] gives it.
pub fn join_strings(parts: &[String], sep: &str) -> (s: String)
    ensures
        s@ == joined(parts@.map_values(|p: String| p@), sep@),
{
    let ghost all = parts@.map_values(|p: String| p@);
    let mut s = String::new();
    let mut i: usize = 0;
    while i < parts.len()
        invariant
            i <= parts@.len(),
            all == parts@.map_values(|p: String| p@),
            s@ == joined(all.take(i as int), sep@),
        decreases parts@.len() - i,
    {
        proof {
            let t = all.take(i + 1);
            assert(t.drop_last() =~= all.take(i as int));
            assert(t.last() == parts@[i as int]@);
            if i == 0 {
                assert(t.len() == 1);
                assert(all.take(0).len() == 0);
            }
        }
        if i > 0 {
            s.append(sep);
        }
        s.append(parts[i].as_str());
        proof {
            if i == 0 {
                assert(s@ =~= all.take(1)[0]);
            }
        }
        i = i + 1;
    }
    proof {
        assert(all.take(parts@.len() as int) =~= all);
    }
    s
}

/// The pieces of `s` between the occurrences of `c`: one more than there
/// are occurrences, some of them possibly empty.
pub open spec fn pieces(s: Seq<char>, c: char) -> Seq<Seq<char>>
    decreases s.len(),
{
    if s.len() == 0 {
        seq![Seq::empty()]
    } else {
        let p = pieces(s.drop_last(), c);
        if s.last() == c {
            p.push(Seq::empty())
        } else {
            p.update(p.len() - 1, p.last().push(s.last()))
        }
    }
}

proof fn lemma_pieces_len(s: Seq<char>, c: char)
    ensures
        pieces(s, c).len() >= 1,
    decreases s.len(),
{
    if s.len() > 0 {
        lemma_pieces_len(s.drop_last(), c);
    }
}

/// The pieces of `s` between the occurrences of `c`, as [`pieces`] gives
/// them.
pub fn split_on(s: &str, c: char) -> (v: Vec<String>)
    ensures
        v@.map_values(|p: String| p@) == pieces(s@, c),
{
    let n = s.unicode_len();
    let mut v: Vec<String> = Vec::new();
    let mut start: usize = 0;
    let mut i: usize = 0;
    proof {
        assert(s@.take(0) =~= Seq::<char>::empty());
        assert(s@.subrange(0, 0) =~= Seq::<char>::empty());
    }
    while i < n
        invariant
            n == s@.len(),
            start <= i <= n,
            pieces(s@.take(i as int), c) == v@.map_values(|p: String| p@).push(s@.subrange(start as int, i as int)),
        decreases n - i,
    {
        let d = s.get_char(i);
        let ghost t = s@.take(i + 1);
        proof {
            assert(t.drop_last() =~= s@.take(i as int));
            assert(t.last() == d);
            lemma_pieces_len(s@.take(i as int), c);
        }
        if d == c {
            let ghost before = v@.map_values(|p: String| p@);
            let piece = s.substring_char(start, i).to_owned();
            v.push(piece);
            proof {
                assert(v@.map_values(|p: String| p@) =~= before.push(s@.subrange(start as int, i as int)));
                assert(s@.subrange((i + 1) as int, (i + 1) as int) =~= Seq::<char>::empty());
            }
            start = i + 1;
        } else {
            proof {
                let vv = v@.map_values(|p: String| p@);
                let p = pieces(s@.take(i as int), c);
                assert(s@.subrange(start as int, i as int).push(d) =~= s@.subrange(start as int, i + 1));
                assert(p.update(p.len() - 1, p.last().push(d)) =~= vv.push(s@.subrange(start as int, i + 1)));
            }
        }
        i = i + 1;
    }
    proof {
        assert(s@.take(n as int) =~= s@);
    }
    let ghost before = v@.map_values(|p: String| p@);
    let piece = s.substring_char(start, n).to_owned();
    v.push(piece);
    proof {
        assert(v@.map_values(|p: String| p@) =~= before.push(s@.subrange(start as int, n as int)));
    }
    v
}

} // verus!
