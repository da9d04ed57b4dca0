//! Character-level string helpers, specified over `Seq<char>`.
use vstd::prelude::*;
use vstd::string::StringExecFns;

verus! {

/// `String::push` appends one character at the end of the string.
pub assume_specification[ String::push ](s: &mut String, ch: char)
    ensures
        final(s)@ == old(s)@.push(ch),
;

/// Every character is ASCII.
pub open spec fn is_ascii_seq(s: Seq<char>) -> bool {
    forall|i: int| 0 <= i < s.len() ==> (#[trigger] s[i]) as nat <= 127
}

/// `A`-`Z` mapped to `a`-`z`, other characters kept.
pub open spec fn ascii_lower_char(c: char) -> char {
    if 'A' <= c <= 'Z' {
        (c as nat + 32) as char
    } else {
        c
    }
}

/// `a`-`z` mapped to `A`-`Z`, other characters kept.
pub open spec fn ascii_upper_char(c: char) -> char {
    if 'a' <= c <= 'z' {
        (c as nat - 32) as char
    } else {
        c
    }
}

/// The ASCII lowercase form of `s`.
pub open spec fn ascii_lower(s: Seq<char>) -> Seq<char> {
    s.map_values(|c: char| ascii_lower_char(c))
}

/// The ASCII uppercase form of `s`.
pub open spec fn ascii_upper(s: Seq<char>) -> Seq<char> {
    s.map_values(|c: char| ascii_upper_char(c))
}

/// What `str::to_lowercase` returns for a string that is not all ASCII: the
/// Unicode lowercase mapping, which depends on the characters alone.
pub uninterp spec fn unicode_lowercase(s: Seq<char>) -> Seq<char>;

/// What `str::to_lowercase` returns: for an ASCII string, `A`-`Z` mapped to
/// `a`-`z` and every other character kept; otherwise the Unicode mapping.
pub open spec fn lowercase(s: Seq<char>) -> Seq<char> {
    if is_ascii_seq(s) {
        ascii_lower(s)
    } else {
        unicode_lowercase(s)
    }
}

/// Calls `str::to_lowercase`. For an ASCII string the contract states the
/// result; for any other it names it (`unicode_lowercase`, a function of the
/// string alone) without writing out the Unicode tables.
#[verifier::external_body]
pub fn to_lowercase(s: &str) -> (res: String)
    ensures
        res@ == lowercase(s@),
        is_ascii_seq(s@) ==> res@ == ascii_lower(s@),
        !is_ascii_seq(s@) ==> res@ == unicode_lowercase(s@),
{
    s.to_lowercase()
}

/// The character sequences of a list of string slices.
pub open spec fn strs_view(s: Seq<&'static str>) -> Seq<Seq<char>> {
    s.map_values(|x: &'static str| x@)
}

/// `pat` occurs in `s` starting at index `i`.
pub open spec fn occurs_at(s: Seq<char>, pat: Seq<char>, i: int) -> bool {
    &&& 0 <= i
    &&& i + pat.len() <= s.len()
    &&& s.subrange(i, i + pat.len()) == pat
}

/// `pat` occurs somewhere in `s` (the empty pattern occurs in every string).
pub open spec fn contains_seq(s: Seq<char>, pat: Seq<char>) -> bool {
    exists|i: int| occurs_at(s, pat, i)
}

/// Left-to-right, non-overlapping replacement of every occurrence of the
/// non-empty pattern `pat` in `s` by `rep`, as `str::replace` does.
pub open spec fn replace_all(s: Seq<char>, pat: Seq<char>, rep: Seq<char>) -> Seq<char>
    decreases s.len(),
{
    if pat.len() == 0 || s.len() < pat.len() {
        s
    } else if s.take(pat.len() as int) == pat {
        rep + replace_all(s.skip(pat.len() as int), pat, rep)
    } else {
        seq![s[0]] + replace_all(s.skip(1), pat, rep)
    }
}

/// The items of `items` separated by `sep`, as `[T]::join` does.
pub open spec fn join(items: Seq<Seq<char>>, sep: Seq<char>) -> Seq<char>
    decreases items.len(),
{
    if items.len() == 0 {
        Seq::empty()
    } else if items.len() == 1 {
        items[0]
    } else {
        join(items.drop_last(), sep) + sep + items.last()
    }
}

/// The character of a decimal digit.
pub open spec fn digit_char(d: nat) -> char {
    seq!['0', '1', '2', '3', '4', '5', '6', '7', '8', '9'][d as int]
}

/// The decimal notation of `n`, without leading zeros.
pub open spec fn decimal(n: nat) -> Seq<char>
    decreases n,
{
    if n < 10 {
        seq![digit_char(n)]
    } else {
        decimal(n / 10).push(digit_char(n % 10))
    }
}

/// Copies the characters of `s` into a vector, in order.
pub fn chars_of(s: &str) -> (res: Vec<char>)
    ensures
        res@ == s@,
{
    let mut res: Vec<char> = Vec::new();
    for c in it: s.chars()
        invariant
            res@ == it.seq().take(it.index() as int),
            it.seq() == s@,
    {
        res.push(c);
    }
    res
}

/// Appends the characters of `chars[from..to]` to `out`.
pub fn push_chars(out: &mut String, chars: &Vec<char>, from: usize, to: usize)
    requires
        from <= to <= chars.len(),
    ensures
        final(out)@ == old(out)@ + chars@.subrange(from as int, to as int),
{
    let mut i = from;
    while i < to
        invariant
            from <= i <= to <= chars.len(),
            out@ == old(out)@ + chars@.subrange(from as int, i as int),
        decreases to - i,
    {
        out.push(chars[i]);
        i = i + 1;
        assert(chars@.subrange(from as int, i as int) == chars@.subrange(from as int, i - 1).push(
            chars@[i - 1],
        ));
    }
}

/// Whether `pat` occurs in `s` at index `i`.
fn matches_at(s: &Vec<char>, pat: &Vec<char>, i: usize) -> (res: bool)
    requires
        i + pat.len() <= s.len(),
    ensures
        res == occurs_at(s@, pat@, i as int),
{
    let mut j: usize = 0;
    while j < pat.len()
        invariant
            j <= pat.len(),
            i + pat.len() <= s.len(),
            forall|k: int| 0 <= k < j ==> s@[i + k] == pat@[k],
        decreases pat.len() - j,
    {
        if s[i + j] != pat[j] {
            assert(s@.subrange(i as int, i + pat.len())[j as int] != pat@[j as int]);
            return false;
        }
        j = j + 1;
    }
    assert(s@.subrange(i as int, i + pat.len()) =~= pat@);
    true
}

/// Whether `pat` occurs anywhere in `s`, as `str::contains` with a string pattern.
pub fn contains_str(s: &str, pat: &str) -> (res: bool)
    ensures
        res == contains_seq(s@, pat@),
{
    let sc = chars_of(s);
    let pc = chars_of(pat);
    if pc.len() > sc.len() {
        return false;
    }
    if pc.len() == 0 {
        assert(s@.subrange(0, 0) =~= pat@);
        assert(occurs_at(s@, pat@, 0));
        return true;
    }
    let mut i: usize = 0;
    while pc.len() <= sc.len() - i
        invariant
            i <= sc.len(),
            0 < pc.len() <= sc.len(),
            sc@ == s@,
            pc@ == pat@,
            forall|k: int| 0 <= k < i ==> !occurs_at(s@, pat@, k),
        decreases sc.len() - i,
    {
        if matches_at(&sc, &pc, i) {
            return true;
        }
        i = i + 1;
    }
    assert forall|k: int| !occurs_at(s@, pat@, k) by {
        if 0 <= k < i {
        }
    }
    false
}

/// Whether the character `c` occurs in `s`.
pub fn contains_char(s: &str, c: char) -> (res: bool)
    ensures
        res == s@.contains(c),
{
    let sc = chars_of(s);
    let mut i: usize = 0;
    while i < sc.len()
        invariant
            i <= sc.len(),
            sc@ == s@,
            forall|k: int| 0 <= k < i ==> sc@[k] != c,
        decreases sc.len() - i,
    {
        if sc[i] == c {
            return true;
        }
        i = i + 1;
    }
    false
}

/// Unfolds `replace_all` one step at the front of a suffix of `s`.
proof fn lemma_replace_step(s: Seq<char>, pat: Seq<char>, rep: Seq<char>, i: int)
    requires
        pat.len() > 0,
        0 <= i,
        i + pat.len() <= s.len(),
    ensures
        occurs_at(s, pat, i) ==> replace_all(s.skip(i), pat, rep) == rep + replace_all(
            s.skip(i + pat.len()),
            pat,
            rep,
        ),
        !occurs_at(s, pat, i) ==> replace_all(s.skip(i), pat, rep) == seq![s[i]]
            + replace_all(s.skip(i + 1), pat, rep),
{
    let t = s.skip(i);
    assert(t.take(pat.len() as int) =~= s.subrange(i, i + pat.len()));
    assert(t.skip(pat.len() as int) =~= s.skip(i + pat.len()));
    assert(t.skip(1) =~= s.skip(i + 1));
}

/// Replaces every occurrence of the non-empty `pat` in `s` by `rep`, scanning
/// from the left, as `str::replace` does.
pub fn replace_str(s: &str, pat: &str, rep: &str) -> (res: String)
    requires
        pat@.len() > 0,
    ensures
        res@ == replace_all(s@, pat@, rep@),
{
    let sc = chars_of(s);
    let pc = chars_of(pat);
    let mut out = String::new();
    let mut i: usize = 0;
    assert(s@.skip(0) =~= s@);
    while i < sc.len()
        invariant
            i <= sc.len(),
            sc@ == s@,
            pc@ == pat@,
            pc.len() > 0,
            out@ + replace_all(s@.skip(i as int), pat@, rep@) == replace_all(s@, pat@, rep@),
        decreases sc.len() - i,
    {
        if pc.len() > sc.len() - i {
            assert(s@.skip(i as int).len() < pat@.len());
            push_chars(&mut out, &sc, i, sc.len());
            assert(s@.skip(i as int) =~= sc@.subrange(i as int, sc.len() as int));
            assert(s@.skip(sc.len() as int) =~= Seq::<char>::empty());
            assert(out@ + replace_all(s@.skip(sc.len() as int), pat@, rep@) =~= out@);
            i = sc.len();
        } else if matches_at(&sc, &pc, i) {
            proof {
                lemma_replace_step(s@, pat@, rep@, i as int);
            }
            let ghost prev = out@;
            out.append(rep);
            assert(out@ + replace_all(s@.skip(i + pc.len()), pat@, rep@) =~= prev + (rep@
                + replace_all(s@.skip(i + pc.len()), pat@, rep@)));
            i = i + pc.len();
        } else {
            proof {
                lemma_replace_step(s@, pat@, rep@, i as int);
            }
            let ghost prev = out@;
            out.push(sc[i]);
            assert(out@ + replace_all(s@.skip(i + 1), pat@, rep@) =~= prev + (seq![s@[i as int]]
                + replace_all(s@.skip(i + 1), pat@, rep@)));
            i = i + 1;
        }
    }
    assert(s@.skip(sc.len() as int) =~= Seq::<char>::empty());
    assert(out@ + replace_all(s@.skip(sc.len() as int), pat@, rep@) =~= out@);
    out
}

/// Joins `items` with `sep` between consecutive items.
pub fn join_strings(items: &Vec<String>, sep: &str) -> (res: String)
    ensures
        res@ == join(items.deep_view(), sep@),
{
    let mut out = String::new();
    let mut i: usize = 0;
    while i < items.len()
        invariant
            i <= items.len(),
            out@ == join(items.deep_view().take(i as int), sep@),
        decreases items.len() - i,
    {
        let ghost prev = items.deep_view().take(i as int);
        let ghost next = items.deep_view().take(i + 1);
        assert(next.drop_last() =~= prev);
        assert(next.last() == items[i as int]@);
        if i > 0 {
            out.append(sep);
        } else {
            assert(prev =~= Seq::<Seq<char>>::empty());
        }
        out.append(items[i].as_str());
        i = i + 1;
    }
    assert(items.deep_view().take(items.len() as int) =~= items.deep_view());
    out
}

/// The decimal notation of `n`, as `u64::to_string` writes it.
pub fn decimal_string(n: u64) -> (res: String)
    ensures
        res@ == decimal(n as nat),
    decreases n,
{
    let digits: [char; 10] = ['0', '1', '2', '3', '4', '5', '6', '7', '8', '9'];
    let d = n % 10;
    assert(digits@[d as int] == digit_char(d as nat));
    if n < 10 {
        let mut s = String::new();
        s.push(digits[d as usize]);
        assert(s@ =~= seq![digit_char(n as nat)]);
        s
    } else {
        let mut s = decimal_string(n / 10);
        s.push(digits[d as usize]);
        s
    }
}

/// Whether two strings hold the same characters.
pub fn str_eq(a: &str, b: &str) -> (res: bool)
    ensures
        res == (a@ == b@),
{
    let x = a.to_string();
    let y = b.to_string();
    x == y
}

/// The string made of `chars[from..to]`.
pub fn string_of_range(chars: &Vec<char>, from: usize, to: usize) -> (res: String)
    requires
        from <= to <= chars.len(),
    ensures
        res@ == chars@.subrange(from as int, to as int),
{
    let mut s = String::new();
    push_chars(&mut s, chars, from, to);
    assert(s@ =~= chars@.subrange(from as int, to as int));
    s
}

/// The concatenation of `parts`, in order.
pub open spec fn concat(parts: Seq<Seq<char>>) -> Seq<char>
    decreases parts.len(),
{
    if parts.len() == 0 {
        Seq::empty()
    } else {
        concat(parts.drop_last()) + parts.last()
    }
}

/// Concatenates `parts`, in order.
pub fn concat_strs(parts: &Vec<&str>) -> (res: String)
    ensures
        res@ == concat(parts@.map_values(|p: &str| p@)),
{
    let ghost views = parts@.map_values(|p: &str| p@);
    let mut out = String::new();
    let mut i: usize = 0;
    while i < parts.len()
        invariant
            i <= parts.len(),
            views == parts@.map_values(|p: &str| p@),
            out@ == concat(views.take(i as int)),
        decreases parts.len() - i,
    {
        out.append(parts[i]);
        assert(views.take(i + 1).drop_last() =~= views.take(i as int));
        i = i + 1;
    }
    assert(views.take(parts.len() as int) =~= views);
    out
}

/// The number of positions at which the non-empty `pat` occurs in `s`.
pub open spec fn count_occurrences(s: Seq<char>, pat: Seq<char>) -> nat
    decreases s.len(),
{
    if pat.len() == 0 || s.len() < pat.len() {
        0
    } else {
        (if s.take(pat.len() as int) == pat {
            1nat
        } else {
            0nat
        }) + count_occurrences(s.skip(1), pat)
    }
}

/// A string in which `pat` never occurs counts no occurrence of it.
pub proof fn lemma_count_none(s: Seq<char>, pat: Seq<char>)
    requires
        forall|k: int| !occurs_at(s, pat, k),
    ensures
        count_occurrences(s, pat) == 0,
    decreases s.len(),
{
    if pat.len() > 0 && s.len() >= pat.len() {
        assert(s.take(pat.len() as int) =~= s.subrange(0, pat.len() as int));
        assert(!occurs_at(s, pat, 0));
        assert forall|k: int| !occurs_at(s.skip(1), pat, k) by {
            if occurs_at(s.skip(1), pat, k) {
                assert(s.subrange(k + 1, k + 1 + pat.len()) =~= s.skip(1).subrange(
                    k,
                    k + pat.len(),
                ));
                assert(occurs_at(s, pat, k + 1));
            }
        }
        lemma_count_none(s.skip(1), pat);
    }
}

/// Occurrences in `x + y` are those of `x` and those of `y` when none starts
/// in `x` and runs into `y`.
pub proof fn lemma_count_concat(x: Seq<char>, y: Seq<char>, pat: Seq<char>)
    requires
        pat.len() > 0,
        forall|k: int|
            0 <= k < x.len() && k + pat.len() > x.len() ==> !occurs_at(x + y, pat, k),
    ensures
        count_occurrences(x + y, pat) == count_occurrences(x, pat) + count_occurrences(y, pat),
    decreases x.len(),
{
    if x.len() == 0 {
        assert(x + y =~= y);
    } else {
        let xy = x + y;
        let x1 = x.skip(1);
        assert(xy.skip(1) =~= x1 + y);
        assert forall|k: int|
            0 <= k < x1.len() && k + pat.len() > x1.len() implies !occurs_at(
            x1 + y,
            pat,
            k,
        ) by {
            if occurs_at(x1 + y, pat, k) {
                assert(xy.subrange(k + 1, k + 1 + pat.len()) =~= (x1 + y).subrange(
                    k,
                    k + pat.len(),
                ));
                assert(occurs_at(xy, pat, k + 1));
            }
        }
        lemma_count_concat(x1, y, pat);
        if xy.len() >= pat.len() {
            if x.len() >= pat.len() {
                assert(xy.take(pat.len() as int) =~= x.take(pat.len() as int));
            } else {
                assert(xy.take(pat.len() as int) =~= xy.subrange(0, pat.len() as int));
                assert(!occurs_at(xy, pat, 0));
                assert(count_occurrences(x, pat) == 0);
                assert(count_occurrences(x1, pat) == 0);
            }
        }
    }
}

/// Concatenating two lists of parts concatenates their concatenations.
pub proof fn lemma_concat_append(a: Seq<Seq<char>>, b: Seq<Seq<char>>)
    ensures
        concat(a + b) == concat(a) + concat(b),
    decreases b.len(),
{
    if b.len() == 0 {
        assert(a + b =~= a);
        assert(concat(a) + concat(b) =~= concat(a));
    } else {
        lemma_concat_append(a, b.drop_last());
        assert((a + b).drop_last() =~= a + b.drop_last());
        assert(concat(a + b) =~= concat(a) + concat(b));
    }
}

/// The concatenation of `parts` around the part at index `i`.
pub proof fn lemma_concat_around(parts: Seq<Seq<char>>, i: int)
    requires
        0 <= i < parts.len(),
    ensures
        concat(parts) == concat(parts.take(i)) + parts[i] + concat(parts.skip(i + 1)),
{
    assert(parts =~= parts.take(i + 1) + parts.skip(i + 1));
    lemma_concat_append(parts.take(i + 1), parts.skip(i + 1));
    assert(parts.take(i + 1).drop_last() =~= parts.take(i));
}

/// A string that occurs in a part of a string occurs in the string.
pub proof fn lemma_contains_within(s: Seq<char>, at: int, part: Seq<char>, pat: Seq<char>)
    requires
        occurs_at(s, part, at),
        contains_seq(part, pat),
    ensures
        contains_seq(s, pat),
{
    let k = choose|k: int| occurs_at(part, pat, k);
    assert(s.subrange(at + k, at + k + pat.len()) =~= part.subrange(k, k + pat.len()));
    assert(occurs_at(s, pat, at + k));
}

/// Every item occurs in the joined string.
pub proof fn lemma_join_contains(items: Seq<Seq<char>>, sep: Seq<char>, i: int)
    requires
        0 <= i < items.len(),
    ensures
        contains_seq(join(items, sep), items[i]),
    decreases items.len(),
{
    let j = join(items, sep);
    if items.len() == 1 {
        assert(j.subrange(0, items[0].len() as int) =~= items[0]);
        assert(occurs_at(j, items[i], 0));
    } else if i == items.len() - 1 {
        let pre = join(items.drop_last(), sep) + sep;
        assert(j == pre + items.last());
        assert(j.subrange(pre.len() as int, j.len() as int) =~= items[i]);
        assert(occurs_at(j, items[i], pre.len() as int));
    } else {
        let d = items.drop_last();
        lemma_join_contains(d, sep, i);
        let jd = join(d, sep);
        assert(j == jd + sep + items.last());
        assert(j.subrange(0, jd.len() as int) =~= jd);
        lemma_contains_within(j, 0, jd, items[i]);
    }
}

/// Three consecutive parts occur, joined, in the concatenation.
pub proof fn lemma_concat_contains_triple(parts: Seq<Seq<char>>, i: int)
    requires
        1 <= i < parts.len() - 1,
    ensures
        contains_seq(concat(parts), parts[i - 1] + parts[i] + parts[i + 1]),
{
    lemma_concat_around(parts, i - 1);
    let rest = parts.skip(i);
    lemma_concat_around(rest, 0);
    lemma_concat_around(rest.skip(1), 0);
    assert(rest[0] == parts[i]);
    assert(rest.skip(1)[0] == parts[i + 1]);
    assert(rest.take(0) =~= Seq::<Seq<char>>::empty());
    assert(rest.skip(1).take(0) =~= Seq::<Seq<char>>::empty());
    let pre = concat(parts.take(i - 1));
    let mid = parts[i - 1] + parts[i] + parts[i + 1];
    assert(parts.skip(i - 1 + 1) =~= rest);
    let c = concat(parts);
    assert(c =~= pre + mid + concat(rest.skip(1).skip(1)));
    assert(c.subrange(pre.len() as int, (pre.len() + mid.len()) as int) =~= mid);
    assert(occurs_at(c, mid, pre.len() as int));
}

/// The middle of a concatenation occurs in it.
pub proof fn lemma_contains_middle(x: Seq<char>, m: Seq<char>, y: Seq<char>)
    ensures
        contains_seq(x + m + y, m),
{
    assert((x + m + y).subrange(x.len() as int, (x.len() + m.len()) as int) =~= m);
    assert(occurs_at(x + m + y, m, x.len() as int));
}

/// The number that a string of decimal digits writes, most significant first.
pub open spec fn decimal_value(s: Seq<char>) -> int
    decreases s.len(),
{
    if s.len() == 0 {
        0
    } else {
        10 * decimal_value(s.drop_last()) + (s.last() as int - '0' as int)
    }
}

proof fn lemma_digit_char(d: nat)
    requires
        d < 10,
    ensures
        digit_char(d) as int - '0' as int == d,
        '0' <= digit_char(d) <= '9',
{
    let s = seq!['0', '1', '2', '3', '4', '5', '6', '7', '8', '9'];
    assert(s[0] == '0' && s[1] == '1' && s[2] == '2' && s[3] == '3' && s[4] == '4');
    assert(s[5] == '5' && s[6] == '6' && s[7] == '7' && s[8] == '8' && s[9] == '9');
    if d == 0 {
    } else if d == 1 {
    } else if d == 2 {
    } else if d == 3 {
    } else if d == 4 {
    } else if d == 5 {
    } else if d == 6 {
    } else if d == 7 {
    } else if d == 8 {
    } else {
    }
}

/// The decimal notation of a number is a non-empty string of digits, with
/// no leading zero unless it is `0`, that writes the number.
pub proof fn law_decimal_writes_number(n: nat)
    ensures
        decimal(n).len() > 0,
        decimal_value(decimal(n)) == n,
        forall|i: int| 0 <= i < decimal(n).len() ==> '0' <= #[trigger] decimal(n)[i] <= '9',
        decimal(n).len() > 1 ==> decimal(n)[0] != '0',
    decreases n,
{
    if n < 10 {
        lemma_digit_char(n);
        let d = decimal(n);
        assert(d == seq![digit_char(n)]);
        assert(d.drop_last() =~= Seq::<char>::empty());
        assert(decimal_value(d) == 10 * decimal_value(d.drop_last()) + (d.last() as int
            - '0' as int));
    } else {
        lemma_digit_char(n % 10);
        if n / 10 < 10 {
            lemma_digit_char(n / 10);
            assert(decimal(n / 10) == seq![digit_char(n / 10)]);
            assert(decimal(n / 10)[0] == digit_char(n / 10));
            assert(digit_char(n / 10) != '0');
        }
        law_decimal_writes_number(n / 10);
        assert(decimal(n).last() == digit_char(n % 10));
        let d = decimal(n);
        assert(d.drop_last() =~= decimal(n / 10));
        assert forall|i: int| 0 <= i < d.len() implies '0' <= #[trigger] d[i] <= '9' by {
            if i < d.len() - 1 {
                assert(d[i] == decimal(n / 10)[i]);
            }
        }
        assert(d[0] == decimal(n / 10)[0]);
        if n / 10 >= 10 {
            law_decimal_writes_number(n / 100);
            assert(decimal(n / 10) == decimal(n / 10 / 10).push(digit_char((n / 10) % 10)));
            assert(decimal(n / 10).len() > 1);
        }
    }
}

} // verus!
