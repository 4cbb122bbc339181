//! Text as sequences of characters: the few operations that the rest of the library builds on.

use vstd::prelude::*;

verus! {

/// `String::push` of std: the character is added at the end, and nothing else changes.
pub assume_specification[ String::push ](s: &mut String, c: char)
    ensures
        final(s)@ == old(s)@.push(c),
;

/// The texts that a list of strings holds, in order.
pub open spec fn texts(list: Seq<String>) -> Seq<Seq<char>> {
    list.map_values(|s: String| s@)
}

/// The text of an optional string.
pub open spec fn opt_text(s: Option<String>) -> Option<Seq<char>> {
    match s {
        Some(t) => Some(t@),
        None => None,
    }
}

/// `needle` stands in `hay` from position `at` on.
pub open spec fn stands_at(hay: Seq<char>, needle: Seq<char>, at: int) -> bool {
    0 <= at && at + needle.len() <= hay.len() && hay.subrange(at, at + needle.len()) == needle
}

/// `needle` stands somewhere in `hay`.
pub open spec fn has_text(hay: Seq<char>, needle: Seq<char>) -> bool {
    exists|at: int| #[trigger] stands_at(hay, needle, at)
}

/// The decimal digit of a number below ten.
pub open spec fn digit(n: nat) -> char {
    if n == 0 {
        '0'
    } else if n == 1 {
        '1'
    } else if n == 2 {
        '2'
    } else if n == 3 {
        '3'
    } else if n == 4 {
        '4'
    } else if n == 5 {
        '5'
    } else if n == 6 {
        '6'
    } else if n == 7 {
        '7'
    } else if n == 8 {
        '8'
    } else {
        '9'
    }
}

/// A number in decimal notation, without leading zeros.
pub open spec fn decimal(n: nat) -> Seq<char>
    decreases n,
{
    if n < 10 {
        seq![digit(n)]
    } else {
        decimal(n / 10).push(digit(n % 10))
    }
}

/// A string added at the end of a list adds its text.
pub proof fn lemma_texts_push(list: Seq<String>, s: String)
    ensures
        texts(list.push(s)) == texts(list).push(s@),
{
    assert(texts(list.push(s)) =~= texts(list).push(s@));
}

/// Whether two texts are the same.
pub fn same_text(a: &str, b: &str) -> (same: bool)
    ensures
        same == (a@ == b@),
{
    a.to_owned() == b.to_owned()
}

/// The characters of a text.
pub fn chars_of(s: &str) -> (chars: Vec<char>)
    ensures
        chars@ == s@,
{
    let mut out: Vec<char> = Vec::new();
    for c in it: s.chars()
        invariant
            it.seq() == s@,
            out@ == s@.take(it.index()),
    {
        out.push(c);
        assert(s@.take(it.index() + 1) =~= s@.take(it.index()).push(c));
    }
    assert(s@.take(s@.len() as int) =~= s@);
    out
}

/// The text that the characters `from..to` of a list make up.
pub fn text_of(chars: &Vec<char>, from: usize, to: usize) -> (s: String)
    requires
        from <= to <= chars@.len(),
    ensures
        s@ == chars@.subrange(from as int, to as int),
{
    let mut out = String::new();
    let mut i: usize = from;
    while i < to
        invariant
            from <= i <= to <= chars@.len(),
            out@ == chars@.subrange(from as int, i as int),
        decreases to - i,
    {
        out.push(chars[i]);
        assert(chars@.subrange(from as int, i + 1) =~= chars@.subrange(from as int, i as int).push(
            chars@[i as int],
        ));
        i += 1;
    }
    out
}

/// One text after the other.
pub fn concat2(a: &str, b: &str) -> (s: String)
    ensures
        s@ == a@ + b@,
{
    a.to_owned().concat(b)
}

/// Three texts, one after the other.
pub fn concat3(a: &str, b: &str, c: &str) -> (s: String)
    ensures
        s@ == a@ + b@ + c@,
{
    a.to_owned().concat(b).concat(c)
}

/// Whether `needle` stands somewhere in `hay`.
pub fn contains_text(hay: &str, needle: &str) -> (found: bool)
    ensures
        found == has_text(hay@, needle@),
{
    let hay_chars = chars_of(hay);
    let needle_chars = chars_of(needle);
    if needle_chars.len() > hay_chars.len() {
        return false;
    }
    let last: usize = hay_chars.len() - needle_chars.len();
    let mut at: usize = 0;
    while at <= last
        invariant
            hay_chars@ == hay@,
            needle_chars@ == needle@,
            last + needle_chars@.len() == hay_chars@.len() <= usize::MAX,
            at <= last + 1,
            forall|p: int| 0 <= p < at ==> !#[trigger] stands_at(hay@, needle@, p),
        decreases last + 1 - at,
    {
        let mut k: usize = 0;
        while k < needle_chars.len() && hay_chars[at + k] == needle_chars[k]
            invariant
                at <= last,
                last + needle_chars@.len() == hay_chars@.len() <= usize::MAX,
                k <= needle_chars@.len(),
                forall|j: int| 0 <= j < k ==> hay_chars@[at + j] == #[trigger] needle_chars@[j],
            decreases needle_chars@.len() - k,
        {
            k += 1;
        }
        if k == needle_chars.len() {
            assert(hay@.subrange(at as int, at + needle@.len()) =~= needle@);
            assert(stands_at(hay@, needle@, at as int));
            return true;
        }
        assert(!stands_at(hay@, needle@, at as int)) by {
            assert(hay@.subrange(at as int, at + needle@.len())[k as int] == hay@[at + k]);
        }
        if at == last {
            return false;
        }
        at += 1;
    }
    false
}

/// The digit of a number below ten.
fn digit_char(n: usize) -> (c: char)
    requires
        n < 10,
    ensures
        c == digit(n as nat),
{
    if n == 0 {
        '0'
    } else if n == 1 {
        '1'
    } else if n == 2 {
        '2'
    } else if n == 3 {
        '3'
    } else if n == 4 {
        '4'
    } else if n == 5 {
        '5'
    } else if n == 6 {
        '6'
    } else if n == 7 {
        '7'
    } else if n == 8 {
        '8'
    } else {
        '9'
    }
}

/// A number in decimal notation.
pub fn decimal_text(n: usize) -> (s: String)
    ensures
        s@ == decimal(n as nat),
    decreases n,
{
    if n < 10 {
        let mut s = String::new();
        s.push(digit_char(n));
        assert(s@ =~= decimal(n as nat));
        s
    } else {
        let mut s = decimal_text(n / 10);
        s.push(digit_char(n % 10));
        s
    }
}

/// Whether a list of strings holds a given text.
pub fn list_has(list: &Vec<String>, wanted: &str) -> (found: bool)
    ensures
        found == texts(list@).contains(wanted@),
{
    let mut i: usize = 0;
    while i < list.len()
        invariant
            i <= list@.len(),
            forall|j: int| 0 <= j < i ==> #[trigger] list@[j]@ != wanted@,
        decreases list@.len() - i,
    {
        if same_text(list[i].as_str(), wanted) {
            assert(texts(list@)[i as int] == wanted@);
            return true;
        }
        i += 1;
    }
    assert(!texts(list@).contains(wanted@)) by {
        if texts(list@).contains(wanted@) {
            let j = choose|j: int| 0 <= j < texts(list@).len() && texts(list@)[j] == wanted@;
            assert(list@[j]@ == wanted@);
        }
    }
    false
}

/// A text stands in another exactly if, from some position on, the other has its characters one by
/// one.
pub proof fn law_has_text(hay: Seq<char>, needle: Seq<char>)
    ensures
        has_text(hay, needle) <==> exists|at: int|
            0 <= at && at + needle.len() <= hay.len() && #[trigger] same_from(hay, needle, at),
{
    if has_text(hay, needle) {
        let at = choose|at: int| #[trigger] stands_at(hay, needle, at);
        assert forall|k: int| 0 <= k < needle.len() implies hay[at + k] == #[trigger] needle[k] by {
            assert(hay.subrange(at, at + needle.len())[k] == needle[k]);
        }
        assert(same_from(hay, needle, at));
    }
    if exists|at: int|
        0 <= at && at + needle.len() <= hay.len() && #[trigger] same_from(hay, needle, at) {
        let at = choose|at: int|
            0 <= at && at + needle.len() <= hay.len() && #[trigger] same_from(hay, needle, at);
        assert(hay.subrange(at, at + needle.len()) =~= needle);
        assert(stands_at(hay, needle, at));
    }
}

/// From position `at` on, `hay` has the characters of `needle`, one by one.
pub open spec fn same_from(hay: Seq<char>, needle: Seq<char>, at: int) -> bool {
    forall|k: int| 0 <= k < needle.len() ==> hay[at + k] == #[trigger] needle[k]
}

/// The texts of a list are those of its members, in order; a missing string has no text.
pub proof fn law_texts(list: Seq<String>, s: String)
    ensures
        texts(list).len() == list.len(),
        forall|i: int| 0 <= i < list.len() ==> #[trigger] texts(list)[i] == list[i]@,
        opt_text(Some(s)) == Some(s@),
        opt_text(None) is None,
{
}

/// The number that a text of decimal digits stands for.
pub open spec fn number_of(digits: Seq<char>) -> int
    decreases digits.len(),
{
    if digits.len() == 0 {
        0
    } else {
        10 * number_of(digits.drop_last()) + (digits.last() as int - '0' as int)
    }
}

/// A number in decimal notation reads back as that number, consists of digits, and has no needless
/// zero at its start.
pub proof fn law_decimal_reads_back(n: nat)
    ensures
        number_of(decimal(n)) == n,
        decimal(n).len() > 0,
        forall|i: int| 0 <= i < decimal(n).len() ==> '0' <= #[trigger] decimal(n)[i] <= '9',
        n > 0 ==> decimal(n)[0] != '0',
    decreases n,
{
    reveal_with_fuel(number_of, 2);
    if n >= 10 {
        law_decimal_reads_back(n / 10);
        assert(decimal(n).drop_last() =~= decimal(n / 10));
        assert(decimal(n)[0] == decimal(n / 10)[0]);
        assert(number_of(decimal(n)) == 10 * number_of(decimal(n / 10)) + (digit(n % 10) as int
            - '0' as int));
        assert(digit(n % 10) as int - '0' as int == n % 10);
    } else {
        assert(decimal(n).drop_last() =~= Seq::empty());
    }
}

} // verus!
