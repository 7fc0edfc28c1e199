//! Character-sequence helpers: joining with a separator and decimal digits.
use vstd::prelude::*;
use vstd::string::*;

verus! {

/// The characters of each string, in order.
pub open spec fn texts(v: Seq<String>) -> Seq<Seq<char>> {
    v.map_values(|s: String| s@)
}

/// The parts laid end to end with `sep` between each two neighbours.
pub open spec fn join(parts: Seq<Seq<char>>, sep: Seq<char>) -> Seq<char>
    decreases parts.len(),
{
    if parts.len() == 0 {
        Seq::empty()
    } else if parts.len() == 1 {
        parts[0]
    } else {
        join(parts.drop_last(), sep) + sep + parts.last()
    }
}

/// The decimal digit for `d < 10`.
pub open spec fn digit(d: nat) -> char {
    if d == 0 { '0' }
    else if d == 1 { '1' }
    else if d == 2 { '2' }
    else if d == 3 { '3' }
    else if d == 4 { '4' }
    else if d == 5 { '5' }
    else if d == 6 { '6' }
    else if d == 7 { '7' }
    else if d == 8 { '8' }
    else { '9' }
}

/// The decimal text of `n`, without sign or leading zeros.
pub open spec fn decimal(n: nat) -> Seq<char>
    decreases n,
{
    if n < 10 {
        seq![digit(n)]
    } else {
        decimal(n / 10) + seq![digit(n % 10)]
    }
}

/// Appending one more part extends the joined text by the separator and that part.
pub proof fn lemma_join_push(parts: Seq<Seq<char>>, sep: Seq<char>, x: Seq<char>)
    requires
        parts.len() > 0,
    ensures
        join(parts.push(x), sep) == join(parts, sep) + sep + x,
{
    assert(parts.push(x).drop_last() =~= parts);
}

/// Whether `c` is one of the ten decimal digits.
pub open spec fn is_digit(c: char) -> bool {
    c == '0' || c == '1' || c == '2' || c == '3' || c == '4' || c == '5' || c == '6' || c == '7'
        || c == '8' || c == '9'
}

/// Decimal text holds nothing but digits.
pub proof fn lemma_decimal_digits(n: nat)
    ensures
        forall|k: int| 0 <= k < decimal(n).len() ==> is_digit(#[trigger] decimal(n)[k]),
    decreases n,
{
    if n >= 10 {
        lemma_decimal_digits(n / 10);
        assert forall|k: int| 0 <= k < decimal(n).len() implies is_digit(#[trigger] decimal(n)[k]) by {
            if k < decimal(n / 10).len() {
                assert(decimal(n)[k] == decimal(n / 10)[k]);
            }
        }
    }
}

/// `w` stands in `s` starting at index `i`.
pub open spec fn occurs_at(s: Seq<char>, w: Seq<char>, i: int) -> bool {
    0 <= i && i + w.len() <= s.len() && s.subrange(i, i + w.len()) == w
}

/// `w` stands somewhere in `s`.
pub open spec fn occurs_in(s: Seq<char>, w: Seq<char>) -> bool {
    exists|i: int| occurs_at(s, w, i)
}

/// No text of `v` holds `w`.
pub open spec fn none_hold(v: Seq<String>, w: Seq<char>) -> bool {
    forall|k: int| 0 <= k < v.len() ==> !occurs_in(#[trigger] v[k]@, w)
}

/// No window of `w` that starts inside `a` can run into `b`, judged by the first one or
/// two characters of `b`.
pub open spec fn head_ok(w: Seq<char>, b: Seq<char>) -> bool {
    b.len() >= 1 && forall|k: int|
        1 <= k < w.len() ==> (#[trigger] w[k] != b[0] || (k + 1 < w.len() && b.len() >= 2 && w[k
            + 1] != b[1]))
}

/// No window of `w` that ends inside `b` can start in `a`, judged by the last one or two
/// characters of `a`.
pub open spec fn tail_ok(w: Seq<char>, a: Seq<char>) -> bool {
    a.len() >= 1 && forall|j: int|
        0 <= j < w.len() - 1 ==> (#[trigger] w[j] != a.last() || (j >= 1 && a.len() >= 2 && w[j
            - 1] != a[a.len() - 2]))
}

/// No window of `w` straddles the seam between `a` and `b`.
pub open spec fn seam_safe(a: Seq<char>, b: Seq<char>, w: Seq<char>) -> bool {
    a.len() == 0 || b.len() == 0 || head_ok(w, b) || tail_ok(w, a)
}

/// What `head_ok` judges stays at the front when more text follows.
pub proof fn lemma_head_ok_extend(w: Seq<char>, b: Seq<char>, c: Seq<char>)
    requires
        head_ok(w, b),
    ensures
        head_ok(w, b + c),
{
    assert((b + c)[0] == b[0]);
    if b.len() >= 2 {
        assert((b + c)[1] == b[1]);
    }
}

/// What `tail_ok` judges stays at the end when more text precedes.
pub proof fn lemma_tail_ok_extend(w: Seq<char>, c: Seq<char>, a: Seq<char>)
    requires
        tail_ok(w, a),
    ensures
        tail_ok(w, c + a),
{
    assert((c + a).last() == a.last());
    if a.len() >= 2 {
        assert((c + a)[(c + a).len() - 2] == a[a.len() - 2]);
    }
}

proof fn lemma_no_straddle(a: Seq<char>, b: Seq<char>, w: Seq<char>, i: int)
    requires
        seam_safe(a, b, w),
        i < a.len() < i + w.len(),
    ensures
        !occurs_at(a + b, w, i),
{
    if occurs_at(a + b, w, i) {
        let s = a + b;
        let n = w.len();
        let k = a.len() - i;
        let sub = s.subrange(i, i + n);
        assert(w[k] == sub[k]);
        assert(sub[k] == b[0]);
        assert(w[k - 1] == sub[k - 1]);
        assert(sub[k - 1] == a.last());
        if k + 1 < n && b.len() >= 2 {
            assert(w[k + 1] == sub[k + 1]);
            assert(sub[k + 1] == b[1]);
        }
        if k >= 2 && a.len() >= 2 {
            assert(w[k - 2] == sub[k - 2]);
            assert(sub[k - 2] == a[a.len() - 2]);
        }
        if head_ok(w, b) {
            assert(w[k] != b[0] || (k + 1 < n && b.len() >= 2 && w[k + 1] != b[1]));
        } else {
            assert(w[k - 1] != a.last() || (k - 1 >= 1 && a.len() >= 2 && w[k - 2] != a[a.len()
                - 2]));
        }
    }
}

/// A text lacking one of the characters of `w` does not hold `w`.
pub proof fn lemma_missing_char(s: Seq<char>, w: Seq<char>, j: int)
    requires
        0 <= j < w.len(),
        forall|k: int| 0 <= k < s.len() ==> s[k] != w[j],
    ensures
        !occurs_in(s, w),
{
    if occurs_in(s, w) {
        let i = choose|i: int| occurs_at(s, w, i);
        assert(s.subrange(i, i + w.len())[j] == s[i + j]);
    }
}

/// Two texts free of `w` stay free of it when laid end to end across a safe seam.
pub proof fn lemma_concat_clear(a: Seq<char>, b: Seq<char>, w: Seq<char>)
    requires
        w.len() > 0,
        !occurs_in(a, w),
        !occurs_in(b, w),
        seam_safe(a, b, w),
    ensures
        !occurs_in(a + b, w),
{
    if occurs_in(a + b, w) {
        let i = choose|i: int| occurs_at(a + b, w, i);
        let s = a + b;
        let n = w.len();
        if i + n <= a.len() {
            assert(a.subrange(i, i + n) =~= s.subrange(i, i + n));
            assert(occurs_at(a, w, i));
        } else if i >= a.len() {
            assert(b.subrange(i - a.len(), i - a.len() + n) =~= s.subrange(i, i + n));
            assert(occurs_at(b, w, i - a.len()));
        } else {
            lemma_no_straddle(a, b, w, i);
        }
    }
}

/// A join of texts free of `w` is free of it when the separator is, and no window of `w`
/// can straddle either end of the separator.
pub proof fn lemma_join_clear(parts: Seq<Seq<char>>, sep: Seq<char>, w: Seq<char>)
    requires
        w.len() > 0,
        forall|k: int| 0 <= k < parts.len() ==> !occurs_in(#[trigger] parts[k], w),
        !occurs_in(sep, w),
        head_ok(w, sep),
        tail_ok(w, sep),
    ensures
        !occurs_in(join(parts, sep), w),
    decreases parts.len(),
{
    if parts.len() == 0 {
        assert(!occurs_at(Seq::<char>::empty(), w, 0));
    } else if parts.len() > 1 {
        let init = parts.drop_last();
        lemma_join_clear(init, sep, w);
        lemma_concat_clear(join(init, sep), sep, w);
        lemma_tail_ok_extend(w, join(init, sep), sep);
        lemma_concat_clear(join(init, sep) + sep, parts.last(), w);
    }
}

/// Between texts free of `w`, across safe seams, a single copy of `w` is found exactly
/// where it was put.
pub proof fn lemma_sole_occurrence(a: Seq<char>, w: Seq<char>, b: Seq<char>)
    requires
        w.len() > 0,
        !occurs_in(a, w),
        !occurs_in(b, w),
        seam_safe(a, w + b, w),
        seam_safe(a + w, b, w),
    ensures
        forall|i: int| occurs_at(a + w + b, w, i) <==> i == a.len(),
{
    let s = a + w + b;
    let n = w.len();
    assert(s.subrange(a.len() as int, a.len() + n as int) =~= w);
    assert forall|i: int| occurs_at(s, w, i) implies i == a.len() by {
        if i + n <= a.len() {
            assert(a.subrange(i, i + n) =~= s.subrange(i, i + n));
            assert(occurs_at(a, w, i));
        } else if i >= a.len() + n {
            assert(b.subrange(i - a.len() - n, i - a.len()) =~= s.subrange(i, i + n));
            assert(occurs_at(b, w, i - a.len() - n));
        } else if i < a.len() {
            assert(a + (w + b) =~= s);
            lemma_no_straddle(a, w + b, w, i);
        } else if i > a.len() {
            lemma_no_straddle(a + w, b, w, i);
        }
    }
}

/// A character put after a text free of `w` keeps it free when `w` does not end with it.
pub proof fn lemma_clear_append_char(a: Seq<char>, b: Seq<char>, w: Seq<char>)
    requires
        w.len() > 0,
        !occurs_in(a, w),
        b.len() == 1,
        w.last() != b[0],
    ensures
        !occurs_in(a + b, w),
{
    if occurs_in(a + b, w) {
        let i = choose|i: int| occurs_at(a + b, w, i);
        let n = w.len();
        if i + n <= a.len() {
            assert(a.subrange(i, i + n) =~= (a + b).subrange(i, i + n));
            assert(occurs_at(a, w, i));
        } else {
            assert((a + b).subrange(i, i + n)[n - 1] == b[0]);
        }
    }
}

/// A character put before a text free of `w` keeps it free when `w` does not start with it.
pub proof fn lemma_clear_prepend_char(a: Seq<char>, b: Seq<char>, w: Seq<char>)
    requires
        w.len() > 0,
        !occurs_in(b, w),
        a.len() == 1,
        w[0] != a[0],
    ensures
        !occurs_in(a + b, w),
{
    if occurs_in(a + b, w) {
        let i = choose|i: int| occurs_at(a + b, w, i);
        let n = w.len();
        if i >= 1 {
            assert(b.subrange(i - 1, i - 1 + n) =~= (a + b).subrange(i, i + n));
            assert(occurs_at(b, w, i - 1));
        } else {
            assert((a + b).subrange(i, i + n)[0] == a[0]);
        }
    }
}

fn digit_text(d: usize) -> (r: &'static str)
    requires
        d < 10,
    ensures
        r@ == seq![digit(d as nat)],
{
    if d == 0 {
        proof { reveal_strlit("0"); }
        "0"
    } else if d == 1 {
        proof { reveal_strlit("1"); }
        "1"
    } else if d == 2 {
        proof { reveal_strlit("2"); }
        "2"
    } else if d == 3 {
        proof { reveal_strlit("3"); }
        "3"
    } else if d == 4 {
        proof { reveal_strlit("4"); }
        "4"
    } else if d == 5 {
        proof { reveal_strlit("5"); }
        "5"
    } else if d == 6 {
        proof { reveal_strlit("6"); }
        "6"
    } else if d == 7 {
        proof { reveal_strlit("7"); }
        "7"
    } else if d == 8 {
        proof { reveal_strlit("8"); }
        "8"
    } else {
        proof { reveal_strlit("9"); }
        "9"
    }
}

/// Appends the decimal text of `n` to `out`.
pub fn push_decimal(out: &mut String, n: usize)
    ensures
        final(out)@ == old(out)@ + decimal(n as nat),
    decreases n,
{
    if n < 10 {
        out.append(digit_text(n));
    } else {
        push_decimal(out, n / 10);
        out.append(digit_text(n % 10));
    }
    assert(final(out)@ =~= old(out)@ + decimal(n as nat));
}

/// The strings of `parts` laid end to end with `sep` between each two neighbours.
pub fn join_strings(parts: &Vec<String>, sep: &str) -> (r: String)
    ensures
        r@ == join(texts(parts@), sep@),
{
    let mut out = String::new();
    let mut i: usize = 0;
    while i < parts.len()
        invariant
            i <= parts.len(),
            out@ == join(texts(parts@).take(i as int), sep@),
        decreases parts.len() - i,
    {
        let ghost before = texts(parts@).take(i as int);
        if i > 0 {
            out.append(sep);
        }
        out.append(parts[i].as_str());
        proof {
            let ps = texts(parts@);
            assert(ps.take(i as int + 1) =~= before.push(ps[i as int]));
            if i > 0 {
                lemma_join_push(before, sep@, ps[i as int]);
            } else {
                assert(before.push(ps[i as int]).len() == 1);
            }
        }
        i = i + 1;
    }
    assert(texts(parts@).take(parts.len() as int) =~= texts(parts@));
    out
}

} // verus!
