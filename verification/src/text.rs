//! Character-level predicates and string assembly used for names and paths.
use vstd::prelude::*;
use vstd::string::*;

verus! {

/// Unicode `White_Space` property, which `char::is_whitespace` and
/// `str::trim` use.
pub open spec fn is_whitespace_char(c: char) -> bool {
    let u = c as u32;
    (0x09 <= u && u <= 0x0d) || u == 0x20 || u == 0x85 || u == 0xa0 || u == 0x1680 || (0x2000
        <= u && u <= 0x200a) || u == 0x2028 || u == 0x2029 || u == 0x202f || u == 0x205f || u
        == 0x3000
}

/// A text is blank when it is empty or made only of whitespace, that is when
/// trimming it leaves nothing.
pub open spec fn is_blank(s: Seq<char>) -> bool {
    forall|i: int| 0 <= i < s.len() ==> is_whitespace_char(#[trigger] s[i])
}

/// Whether the text holds the character `c`.
pub open spec fn has_char(s: Seq<char>, c: char) -> bool {
    exists|i: int| 0 <= i < s.len() && s[i] == c
}

/// Whether the text holds `a` immediately followed by `b`.
pub open spec fn has_pair(s: Seq<char>, a: char, b: char) -> bool {
    exists|i: int| 0 <= i && i + 1 < s.len() && s[i] == a && #[trigger] s[i + 1] == b
}

/// ASCII lower-casing of one character.
pub open spec fn ascii_lower_char(c: char) -> char {
    if 'A' <= c && c <= 'Z' {
        ((c as u32) + 32) as char
    } else {
        c
    }
}

/// ASCII lower-casing of a text, character by character.
pub open spec fn ascii_lower(s: Seq<char>) -> Seq<char> {
    s.map_values(|c: char| ascii_lower_char(c))
}

/// Components joined by `sep`.
pub open spec fn join_seq(parts: Seq<Seq<char>>, sep: Seq<char>) -> Seq<char>
    decreases parts.len(),
{
    if parts.len() == 0 {
        Seq::empty()
    } else if parts.len() == 1 {
        parts[0]
    } else {
        join_seq(parts.drop_last(), sep) + sep + parts.last()
    }
}

/// Joining parts that do not hold the separator character is unambiguous:
/// the joined text determines the parts.
pub proof fn lemma_join_unambiguous(a: Seq<Seq<char>>, b: Seq<Seq<char>>, c: char)
    requires
        a.len() >= 1,
        b.len() >= 1,
        forall|i: int| 0 <= i < a.len() ==> !has_char(#[trigger] a[i], c),
        forall|i: int| 0 <= i < b.len() ==> !has_char(#[trigger] b[i], c),
        join_seq(a, seq![c]) == join_seq(b, seq![c]),
    ensures
        a == b,
    decreases a.len() + b.len(),
{
    let s = join_seq(a, seq![c]);
    if a.len() == 1 && b.len() == 1 {
        assert(a =~= b);
    } else if a.len() == 1 {
        let prefix = join_seq(b.drop_last(), seq![c]);
        assert(s == prefix + seq![c] + b.last());
        assert(s[prefix.len() as int] == c);
        assert(a[0] == s);
        assert(has_char(a[0], c));
    } else if b.len() == 1 {
        let prefix = join_seq(a.drop_last(), seq![c]);
        assert(s == prefix + seq![c] + a.last());
        assert(s[prefix.len() as int] == c);
        assert(b[0] == s);
        assert(has_char(b[0], c));
    } else {
        let pa = join_seq(a.drop_last(), seq![c]);
        let pb = join_seq(b.drop_last(), seq![c]);
        let x = a.last();
        let y = b.last();
        assert(s == pa + seq![c] + x);
        assert(s == pb + seq![c] + y);
        assert(!has_char(x, c));
        assert(!has_char(y, c));
        if x.len() < y.len() {
            let k = pa.len() as int;
            assert(s[k] == c);
            assert(y[k - pb.len() - 1] == s[k]);
            assert(has_char(y, c));
        } else if y.len() < x.len() {
            let k = pb.len() as int;
            assert(s[k] == c);
            assert(x[k - pa.len() - 1] == s[k]);
            assert(has_char(x, c));
        } else {
            assert(pa.len() == pb.len());
            assert(pa =~= s.take(pa.len() as int));
            assert(pb =~= s.take(pb.len() as int));
            assert(x =~= s.skip(pa.len() as int + 1));
            assert(y =~= s.skip(pb.len() as int + 1));
            assert forall|i: int| 0 <= i < a.drop_last().len() implies !has_char(#[trigger] a.drop_last()[i], c) by {
                assert(a.drop_last()[i] == a[i]);
            }
            assert forall|i: int| 0 <= i < b.drop_last().len() implies !has_char(#[trigger] b.drop_last()[i], c) by {
                assert(b.drop_last()[i] == b[i]);
            }
            lemma_join_unambiguous(a.drop_last(), b.drop_last(), c);
            assert(a =~= a.drop_last().push(x));
            assert(b =~= b.drop_last().push(y));
        }
    }
}

/// The character of a decimal digit.
pub open spec fn digit_char(d: nat) -> char {
    if d == 0 {
        '0'
    } else if d == 1 {
        '1'
    } else if d == 2 {
        '2'
    } else if d == 3 {
        '3'
    } else if d == 4 {
        '4'
    } else if d == 5 {
        '5'
    } else if d == 6 {
        '6'
    } else if d == 7 {
        '7'
    } else if d == 8 {
        '8'
    } else {
        '9'
    }
}

/// The decimal representation of `n`, as `usize`'s `Display` writes it.
pub open spec fn decimal(n: nat) -> Seq<char>
    decreases n,
{
    if n < 10 {
        seq![digit_char(n)]
    } else {
        decimal(n / 10).push(digit_char(n % 10))
    }
}

/// The text of one decimal digit.
fn digit_text(d: usize) -> (text: &'static str)
    requires
        d < 10,
    ensures
        text@ == seq![digit_char(d as nat)],
{
    proof {
        reveal_strlit("0");
        reveal_strlit("1");
        reveal_strlit("2");
        reveal_strlit("3");
        reveal_strlit("4");
        reveal_strlit("5");
        reveal_strlit("6");
        reveal_strlit("7");
        reveal_strlit("8");
        reveal_strlit("9");
    }
    if d == 0 {
        "0"
    } else if d == 1 {
        "1"
    } else if d == 2 {
        "2"
    } else if d == 3 {
        "3"
    } else if d == 4 {
        "4"
    } else if d == 5 {
        "5"
    } else if d == 6 {
        "6"
    } else if d == 7 {
        "7"
    } else if d == 8 {
        "8"
    } else {
        "9"
    }
}

/// Returns the decimal representation of `n`.
pub fn decimal_text(n: usize) -> (text: String)
    ensures
        text@ == decimal(n as nat),
    decreases n,
{
    if n < 10 {
        String::from_str(digit_text(n))
    } else {
        let mut text = decimal_text(n / 10);
        text.append(digit_text(n % 10));
        text
    }
}

/// Appends the decimal representation of `n`.
pub fn append_decimal(text: &mut String, n: usize)
    ensures
        final(text)@ == old(text)@ + decimal(n as nat),
{
    let digits = decimal_text(n);
    text.append(digits.as_str());
}

/// Returns whether `c` has the Unicode `White_Space` property.
pub fn char_is_whitespace(c: char) -> (ws: bool)
    ensures
        ws == is_whitespace_char(c),
{
    let u = c as u32;
    (0x09 <= u && u <= 0x0d) || u == 0x20 || u == 0x85 || u == 0xa0 || u == 0x1680 || (0x2000
        <= u && u <= 0x200a) || u == 0x2028 || u == 0x2029 || u == 0x202f || u == 0x205f || u
        == 0x3000
}

/// Returns whether the text is empty after trimming whitespace.
pub fn str_is_blank(s: &str) -> (blank: bool)
    ensures
        blank == is_blank(s@),
{
    let n = s.unicode_len();
    let mut i: usize = 0;
    while i < n
        invariant
            n == s@.len(),
            i <= n,
            forall|j: int| 0 <= j < i ==> is_whitespace_char(#[trigger] s@[j]),
        decreases n - i,
    {
        let c = s.get_char(i);
        if !char_is_whitespace(c) {
            return false;
        }
        i = i + 1;
    }
    true
}

/// Returns whether the text holds the character `c`.
pub fn str_has_char(s: &str, c: char) -> (found: bool)
    ensures
        found == has_char(s@, c),
{
    let n = s.unicode_len();
    let mut i: usize = 0;
    while i < n
        invariant
            n == s@.len(),
            i <= n,
            forall|j: int| 0 <= j < i ==> #[trigger] s@[j] != c,
        decreases n - i,
    {
        if s.get_char(i) == c {
            return true;
        }
        i = i + 1;
    }
    false
}

/// Returns whether the text holds `a` immediately followed by `b`.
pub fn str_has_pair(s: &str, a: char, b: char) -> (found: bool)
    ensures
        found == has_pair(s@, a, b),
{
    let n = s.unicode_len();
    if n < 2 {
        return false;
    }
    let mut i: usize = 0;
    while i < n - 1
        invariant
            n == s@.len(),
            n >= 2,
            i <= n - 1,
            forall|j: int| 0 <= j < i && j + 1 < n ==> !(s@[j] == a && #[trigger] s@[j + 1] == b),
        decreases n - i,
    {
        if s.get_char(i) == a && s.get_char(i + 1) == b {
            return true;
        }
        i = i + 1;
    }
    false
}

/// Returns `prefix`, the separator `sep` and `suffix`, concatenated.
pub fn concat3(prefix: &str, sep: &str, suffix: &str) -> (joined: String)
    ensures
        joined@ == prefix@ + sep@ + suffix@,
{
    let mut joined = String::from_str(prefix);
    joined.append(sep);
    joined.append(suffix);
    joined
}

/// Lexicographic order of texts by Unicode scalar value, which is the order of
/// `str`'s `Ord` (UTF-8 preserves code point order byte by byte).
pub open spec fn text_less(a: Seq<char>, b: Seq<char>) -> bool
    decreases a.len(),
{
    if b.len() == 0 {
        false
    } else if a.len() == 0 {
        true
    } else if a[0] != b[0] {
        a[0] < b[0]
    } else {
        text_less(a.drop_first(), b.drop_first())
    }
}

/// No text is before itself.
pub proof fn lemma_text_less_irreflexive(a: Seq<char>)
    ensures
        !text_less(a, a),
    decreases a.len(),
{
    if a.len() > 0 {
        lemma_text_less_irreflexive(a.drop_first());
    }
}

/// The text order is transitive.
pub proof fn lemma_text_less_transitive(a: Seq<char>, b: Seq<char>, c: Seq<char>)
    requires
        text_less(a, b),
        text_less(b, c),
    ensures
        text_less(a, c),
    decreases a.len(),
{
    if a.len() > 0 && b.len() > 0 && c.len() > 0 && a[0] == b[0] && b[0] == c[0] {
        lemma_text_less_transitive(a.drop_first(), b.drop_first(), c.drop_first());
    }
}

/// Of two different texts, one is before the other.
pub proof fn lemma_text_less_total(a: Seq<char>, b: Seq<char>)
    ensures
        a == b || text_less(a, b) || text_less(b, a),
    decreases a.len(),
{
    if a.len() > 0 && b.len() > 0 {
        if a[0] == b[0] {
            lemma_text_less_total(a.drop_first(), b.drop_first());
            if a.drop_first() == b.drop_first() {
                assert(a =~= seq![a[0]] + a.drop_first());
                assert(b =~= seq![b[0]] + b.drop_first());
            }
        }
    } else if a.len() == 0 && b.len() == 0 {
        assert(a =~= b);
    }
}

/// Of two texts, at most one is before the other.
pub proof fn lemma_text_less_asymmetric(a: Seq<char>, b: Seq<char>)
    ensures
        !(text_less(a, b) && text_less(b, a)),
{
    if text_less(a, b) && text_less(b, a) {
        lemma_text_less_transitive(a, b, a);
        lemma_text_less_irreflexive(a);
    }
}

/// The texts are in strictly increasing order.
pub open spec fn strictly_sorted(texts: Seq<Seq<char>>) -> bool {
    forall|i: int, j: int| 0 <= i < j < texts.len() ==> text_less(#[trigger] texts[i], #[trigger] texts[j])
}

/// `a` and `b` hold the same texts.
pub open spec fn same_texts(a: Seq<Seq<char>>, b: Seq<Seq<char>>) -> bool {
    forall|x: Seq<char>| a.contains(x) <==> b.contains(x)
}

/// The distinct texts of `texts` in increasing order.
pub open spec fn sorted_distinct(texts: Seq<Seq<char>>) -> Seq<Seq<char>> {
    choose|sorted: Seq<Seq<char>>| strictly_sorted(sorted) && same_texts(sorted, texts)
}

/// Two increasing lists of the same texts are equal, so [`sorted_distinct`]
/// names the one list that any increasing arrangement of the texts gives.
pub proof fn lemma_sorted_unique(a: Seq<Seq<char>>, b: Seq<Seq<char>>)
    requires
        strictly_sorted(a),
        strictly_sorted(b),
        same_texts(a, b),
    ensures
        a == b,
    decreases a.len(),
{
    if a.len() == 0 {
        if b.len() > 0 {
            assert(b.contains(b[0]));
        }
        assert(a =~= b);
    } else if b.len() == 0 {
        assert(a.contains(a[0]));
    } else {
        assert(a.contains(a[0]));
        assert(b.contains(b[0]));
        let j = choose|j: int| 0 <= j < b.len() && b[j] == a[0];
        let i = choose|i: int| 0 <= i < a.len() && a[i] == b[0];
        if j > 0 && i > 0 {
            assert(text_less(b[0], b[j]));
            assert(text_less(a[0], a[i]));
            lemma_text_less_asymmetric(a[0], b[0]);
        } else if j > 0 {
            assert(text_less(b[0], b[j]));
            lemma_text_less_irreflexive(b[0]);
        } else if i > 0 {
            assert(text_less(a[0], a[i]));
            lemma_text_less_irreflexive(a[0]);
        }
        assert(a[0] == b[0]);
        let ta = a.drop_first();
        let tb = b.drop_first();
        assert forall|x: Seq<char>| ta.contains(x) <==> tb.contains(x) by {
            if ta.contains(x) {
                let k = choose|k: int| 0 <= k < ta.len() && ta[k] == x;
                assert(a[k + 1] == x);
                assert(text_less(a[0], a[k + 1]));
                lemma_text_less_irreflexive(x);
                assert(a.contains(x));
                let m = choose|m: int| 0 <= m < b.len() && b[m] == x;
                assert(m != 0);
                assert(tb[m - 1] == x);
            }
            if tb.contains(x) {
                let k = choose|k: int| 0 <= k < tb.len() && tb[k] == x;
                assert(b[k + 1] == x);
                assert(text_less(b[0], b[k + 1]));
                lemma_text_less_irreflexive(x);
                assert(b.contains(x));
                let m = choose|m: int| 0 <= m < a.len() && a[m] == x;
                assert(m != 0);
                assert(ta[m - 1] == x);
            }
        }
        assert forall|p: int, q: int| 0 <= p < q < ta.len() implies text_less(#[trigger] ta[p], #[trigger] ta[q]) by {
            assert(ta[p] == a[p + 1] && ta[q] == a[q + 1]);
        }
        assert forall|p: int, q: int| 0 <= p < q < tb.len() implies text_less(#[trigger] tb[p], #[trigger] tb[q]) by {
            assert(tb[p] == b[p + 1] && tb[q] == b[q + 1]);
        }
        lemma_sorted_unique(ta, tb);
        assert(a =~= seq![a[0]] + ta);
        assert(b =~= seq![b[0]] + tb);
    }
}

/// An increasing list of the texts is the one [`sorted_distinct`] names.
pub proof fn lemma_sorted_distinct(sorted: Seq<Seq<char>>, texts: Seq<Seq<char>>)
    requires
        strictly_sorted(sorted),
        same_texts(sorted, texts),
    ensures
        sorted_distinct(texts) == sorted,
{
    let chosen = sorted_distinct(texts);
    assert(strictly_sorted(chosen) && same_texts(chosen, texts));
    assert(same_texts(chosen, sorted));
    lemma_sorted_unique(chosen, sorted);
}

/// Returns whether `a` comes strictly before `b` in lexicographic order.
pub fn str_less(a: &str, b: &str) -> (less: bool)
    ensures
        less == text_less(a@, b@),
{
    let n = a.unicode_len();
    let m = b.unicode_len();
    let mut i: usize = 0;
    assert(a@.skip(0) =~= a@);
    assert(b@.skip(0) =~= b@);
    while i < n && i < m
        invariant
            n == a@.len(),
            m == b@.len(),
            i <= n,
            i <= m,
            text_less(a@, b@) == text_less(a@.skip(i as int), b@.skip(i as int)),
        decreases n - i,
    {
        let x = a.get_char(i);
        let y = b.get_char(i);
        assert(a@.skip(i as int)[0] == x);
        assert(b@.skip(i as int)[0] == y);
        if x != y {
            return x < y;
        }
        assert(a@.skip(i as int).drop_first() =~= a@.skip(i + 1));
        assert(b@.skip(i as int).drop_first() =~= b@.skip(i + 1));
        i = i + 1;
    }
    i < m
}

/// Returns whether the two texts hold the same characters.
pub fn str_eq(a: &str, b: &str) -> (eq: bool)
    ensures
        eq == (a@ == b@),
{
    let n = a.unicode_len();
    let m = b.unicode_len();
    if n != m {
        return false;
    }
    let mut i: usize = 0;
    while i < n
        invariant
            n == a@.len(),
            m == b@.len(),
            n == m,
            i <= n,
            forall|j: int| 0 <= j < i ==> a@[j] == b@[j],
        decreases n - i,
    {
        if a.get_char(i) != b.get_char(i) {
            return false;
        }
        i = i + 1;
    }
    assert(a@ =~= b@);
    true
}

/// `str::to_ascii_lowercase`: letters `A`..=`Z` become `a`..=`z`, every other
/// character is kept.
#[verifier::external_body]
pub fn to_ascii_lowercase(s: &str) -> (lower: String)
    ensures
        lower@ == ascii_lower(s@),
{
    s.to_ascii_lowercase()
}


/// Returns the texts joined by `sep`.
pub fn join_strings(parts: &[String], sep: &str) -> (joined: String)
    ensures
        joined@ == join_seq(string_views(parts@), sep@),
{
    let ghost views = string_views(parts@);
    let n = parts.len();
    if n == 0 {
        return String::new();
    }
    let mut joined = String::from_str(parts[0].as_str());
    assert(views.take(1) =~= seq![views[0]]);
    let mut i: usize = 1;
    while i < n
        invariant
            n == parts@.len(),
            views == string_views(parts@),
            1 <= i <= n,
            joined@ == join_seq(views.take(i as int), sep@),
        decreases n - i,
    {
        joined.append(sep);
        joined.append(parts[i].as_str());
        proof {
            let taken = views.take(i + 1);
            assert(taken.drop_last() =~= views.take(i as int));
            assert(taken.last() == parts@[i as int]@);
        }
        i = i + 1;
    }
    assert(views.take(n as int) =~= views);
    joined
}

/// Views of a list of strings.
pub open spec fn string_views(names: Seq<String>) -> Seq<Seq<char>> {
    names.map_values(|name: String| name@)
}

/// Copies a list of strings.
pub fn clone_strings(names: &[String]) -> (copy: Vec<String>)
    ensures
        string_views(copy@) == string_views(names@),
{
    let mut copy: Vec<String> = Vec::new();
    let mut i: usize = 0;
    while i < names.len()
        invariant
            i <= names@.len(),
            copy@.len() == i,
            forall|j: int| 0 <= j < i ==> #[trigger] copy@[j]@ == names@[j]@,
        decreases names@.len() - i,
    {
        copy.push(names[i].clone());
        i = i + 1;
    }
    assert(string_views(copy@) =~= string_views(names@));
    copy
}

} // verus!
