//! Text as sequences of characters: trimming, letter case, decimal numbers,
//! comparison.
use vstd::prelude::*;

verus! {

/// `String::push` appends one character to the end.
pub assume_specification[ String::push ](s: &mut String, c: char)
    ensures
        final(s)@ == old(s)@.push(c),
;

/// The characters of a text, in order.
pub fn chars_of(s: &str) -> (chars: Vec<char>)
    ensures
        chars@ == s@,
{
    let mut chars: Vec<char> = Vec::new();
    for c in it: s.chars()
        invariant
            chars@ == s@.take(it.index() as int),
            it.seq() == s@,
    {
        chars.push(c);
        assert(s@.take(it.index() + 1) == s@.take(it.index() as int).push(c));
    }
    assert(s@.take(s@.len() as int) == s@);
    chars
}

/// The text made of the characters from `from` up to, not including, `to`.
pub fn text_of(chars: &Vec<char>, from: usize, to: usize) -> (s: String)
    requires
        from <= to <= chars@.len(),
    ensures
        s@ == chars@.subrange(from as int, to as int),
{
    let mut s = String::new();
    let mut i: usize = from;
    while i < to
        invariant
            from <= i <= to <= chars@.len(),
            s@ == chars@.subrange(from as int, i as int),
        decreases to - i,
    {
        s.push(chars[i]);
        assert(chars@.subrange(from as int, i + 1) == chars@.subrange(from as int, i as int).push(
            chars@[i as int],
        ));
        i += 1;
    }
    s
}

/// Whether two texts hold the same characters.
pub fn same(a: &str, b: &str) -> (r: bool)
    ensures
        r == (a@ == b@),
{
    let x = a.as_bytes();
    let y = b.as_bytes();
    proof {
        vstd::utf8::encode_utf8_decode_utf8(a@);
        vstd::utf8::encode_utf8_decode_utf8(b@);
    }
    if x.len() != y.len() {
        return false;
    }
    let mut i: usize = 0;
    while i < x.len()
        invariant
            i <= x@.len() == y@.len(),
            x@ == vstd::utf8::encode_utf8(a@),
            y@ == vstd::utf8::encode_utf8(b@),
            forall|j: int| 0 <= j < i ==> x@[j] == y@[j],
        decreases x@.len() - i,
    {
        if x[i] != y[i] {
            return false;
        }
        i += 1;
    }
    assert(x@ == y@);
    true
}

/// What an optional text holds.
pub open spec fn opt_view(s: Option<String>) -> Option<Seq<char>> {
    match s {
        Some(s) => Some(s@),
        None => None,
    }
}

/// What an optional borrowed text holds.
pub open spec fn opt_str(s: Option<&str>) -> Option<Seq<char>> {
    match s {
        Some(s) => Some(s@),
        None => None,
    }
}

/// An owned copy of an optional text.
pub fn opt_clone(s: &Option<String>) -> (r: Option<String>)
    ensures
        opt_view(r) == opt_view(*s),
{
    match s {
        Some(s) => Some(s.clone()),
        None => None,
    }
}

/// An optional text, borrowed.
pub fn opt_borrow(s: &Option<String>) -> (r: Option<&str>)
    ensures
        opt_str(r) == opt_view(*s),
{
    match s {
        Some(s) => Some(s.as_str()),
        None => None,
    }
}

/// An owned copy of an optional borrowed text.
pub fn opt_owned(s: Option<&str>) -> (r: Option<String>)
    ensures
        opt_view(r) == opt_str(s),
{
    match s {
        Some(s) => Some(s.to_owned()),
        None => None,
    }
}

/// White space as Unicode's `White_Space` property has it.
pub open spec fn white(c: char) -> bool {
    let u = c as u32;
    ||| 0x09 <= u <= 0x0d
    ||| u == 0x20
    ||| u == 0x85
    ||| u == 0xa0
    ||| u == 0x1680
    ||| 0x2000 <= u <= 0x200a
    ||| u == 0x2028
    ||| u == 0x2029
    ||| u == 0x202f
    ||| u == 0x205f
    ||| u == 0x3000
}

/// Whether a character is white space.
pub fn is_white(c: char) -> (r: bool)
    ensures
        r == white(c),
{
    let u: u32 = c as u32;
    (0x09 <= u && u <= 0x0d) || u == 0x20 || u == 0x85 || u == 0xa0 || u == 0x1680 || (0x2000 <= u
        && u <= 0x200a) || u == 0x2028 || u == 0x2029 || u == 0x202f || u == 0x205f || u == 0x3000
}

/// Control characters: Unicode's general category `Cc`.
pub open spec fn control(c: char) -> bool {
    c as u32 <= 0x1f || 0x7f <= c as u32 <= 0x9f
}

/// Whether a character is a control character.
pub fn is_control(c: char) -> (r: bool)
    ensures
        r == control(c),
{
    let u: u32 = c as u32;
    u <= 0x1f || (0x7f <= u && u <= 0x9f)
}

/// A text without the white space that it starts with.
pub open spec fn trimmed_start(s: Seq<char>) -> Seq<char>
    decreases s.len(),
{
    if s.len() > 0 && white(s[0]) {
        trimmed_start(s.skip(1))
    } else {
        s
    }
}

/// A text without the white space that it ends with.
pub open spec fn trimmed_end(s: Seq<char>) -> Seq<char>
    decreases s.len(),
{
    if s.len() > 0 && white(s.last()) {
        trimmed_end(s.drop_last())
    } else {
        s
    }
}

/// A text without white space at either end.
pub open spec fn trimmed(s: Seq<char>) -> Seq<char> {
    trimmed_end(trimmed_start(s))
}

/// Drops white space at both ends.
pub fn trim(s: &str) -> (r: String)
    ensures
        r@ == trimmed(s@),
{
    let chars = chars_of(s);
    let mut from: usize = 0;
    assert(chars@.skip(0) == chars@);
    while from < chars.len() && is_white(chars[from])
        invariant
            from <= chars@.len(),
            trimmed_start(chars@) == trimmed_start(chars@.skip(from as int)),
        decreases chars@.len() - from,
    {
        assert(chars@.skip(from as int).skip(1) == chars@.skip(from + 1));
        from += 1;
    }
    assert(trimmed_start(chars@) == chars@.skip(from as int));
    let mut to: usize = chars.len();
    assert(chars@.subrange(from as int, to as int) == chars@.skip(from as int));
    while from < to && is_white(chars[to - 1])
        invariant
            from <= to <= chars@.len(),
            trimmed_end(chars@.skip(from as int)) == trimmed_end(
                chars@.subrange(from as int, to as int),
            ),
        decreases to,
    {
        assert(chars@.subrange(from as int, to as int).drop_last() == chars@.subrange(
            from as int,
            to - 1,
        ));
        to -= 1;
    }
    assert(trimmed_end(chars@.subrange(from as int, to as int)) == chars@.subrange(
        from as int,
        to as int,
    ));
    text_of(&chars, from, to)
}

/// A borrowed text as trimmed text; nothing when that is empty.
pub open spec fn filled(s: Option<Seq<char>>) -> Option<Seq<char>> {
    match s {
        Some(s) if trimmed(s).len() > 0 => Some(trimmed(s)),
        _ => None,
    }
}

/// Trims an optional text and drops it when nothing is left.
pub fn fill(s: Option<&str>) -> (r: Option<String>)
    ensures
        opt_view(r) == filled(opt_str(s)),
{
    match s {
        Some(s) => {
            let t = trim(s);
            if t.as_str().is_empty() {
                None
            } else {
                Some(t)
            }
        },
        None => None,
    }
}

/// The ASCII lower case of a character; any other character is itself.
pub open spec fn lower(c: char) -> char {
    if 'A' <= c <= 'Z' {
        (c as u32 + 32) as char
    } else {
        c
    }
}

/// Lowers one ASCII letter.
pub fn to_lower(c: char) -> (r: char)
    ensures
        r == lower(c),
{
    if 'A' <= c && c <= 'Z' {
        ((c as u8) + 32) as char
    } else {
        c
    }
}

/// A text with its ASCII letters lowered.
pub open spec fn lowered(s: Seq<char>) -> Seq<char> {
    s.map_values(|c: char| lower(c))
}

/// Lowers the ASCII letters of a text.
pub fn to_lowered(s: &str) -> (r: String)
    ensures
        r@ == lowered(s@),
{
    let mut out = String::new();
    for c in it: s.chars()
        invariant
            out@ == lowered(s@.take(it.index() as int)),
            it.seq() == s@,
    {
        out.push(to_lower(c));
        assert(lowered(s@.take(it.index() + 1)) == lowered(s@.take(it.index() as int)).push(
            lower(c),
        ));
    }
    assert(s@.take(s@.len() as int) == s@);
    out
}

/// Whether a character is an ASCII digit.
pub open spec fn digit(c: char) -> bool {
    '0' <= c <= '9'
}

/// The number that a digit stands for.
pub open spec fn digit_value(c: char) -> nat {
    (c as u32 - '0' as u32) as nat
}

/// The digit that stands for a number below ten.
pub open spec fn digit_char(n: nat) -> char {
    ('0' as u32 + n) as char
}

/// A natural number in decimal, without leading zeros.
pub open spec fn decimal(n: nat) -> Seq<char>
    decreases n,
{
    if n < 10 {
        seq![digit_char(n)]
    } else {
        decimal(n / 10).push(digit_char(n % 10))
    }
}

/// An integer in decimal: a minus sign in front of a negative one.
pub open spec fn decimal_int(n: int) -> Seq<char> {
    if n < 0 {
        seq!['-'] + decimal((-n) as nat)
    } else {
        decimal(n as nat)
    }
}

/// What a run of digits counts to.
pub open spec fn digits_value(s: Seq<char>) -> nat
    decreases s.len(),
{
    if s.len() == 0 {
        0
    } else {
        digits_value(s.drop_last()) * 10 + digit_value(s.last())
    }
}

/// Whether a text is made of digits only, and of at least one.
pub open spec fn all_digits(s: Seq<char>) -> bool {
    s.len() > 0 && forall|i: int| 0 <= i < s.len() ==> digit(#[trigger] s[i])
}

/// The number that a text writes: digits, after one plus sign at most.
pub open spec fn unsigned(s: Seq<char>) -> Option<nat> {
    let body = if s.len() > 0 && s[0] == '+' {
        s.skip(1)
    } else {
        s
    };
    if all_digits(body) {
        Some(digits_value(body))
    } else {
        None
    }
}

/// The integer that a text writes: digits, after one sign at most.
pub open spec fn signed(s: Seq<char>) -> Option<int> {
    if s.len() > 0 && s[0] == '-' {
        if all_digits(s.skip(1)) {
            Some(-(digits_value(s.skip(1)) as int))
        } else {
            None
        }
    } else {
        match unsigned(s) {
            Some(n) => Some(n as int),
            None => None,
        }
    }
}

/// The number that a text writes, when it is at most `max`.
pub open spec fn unsigned_upto(s: Seq<char>, max: nat) -> Option<nat> {
    match unsigned(s) {
        Some(n) if n <= max => Some(n),
        _ => None,
    }
}

/// Reads a run of digits from `from` on; nothing when it is none or past
/// `u64`.
fn read_digits(chars: &Vec<char>, from: usize) -> (r: Option<u64>)
    requires
        from <= chars@.len(),
    ensures
        ({
            let body = chars@.skip(from as int);
            match r {
                Some(n) => all_digits(body) && digits_value(body) == n,
                None => !all_digits(body) || digits_value(body) > u64::MAX,
            }
        }),
{
    let ghost body = chars@.skip(from as int);
    if from == chars.len() {
        return None;
    }
    let mut n: u64 = 0;
    let mut i: usize = from;
    let mut over = false;
    while i < chars.len()
        invariant
            from <= i <= chars@.len(),
            body == chars@.skip(from as int),
            forall|j: int| 0 <= j < i - from ==> digit(#[trigger] body[j]),
            !over ==> n == digits_value(body.take(i - from)),
            over ==> digits_value(body.take(i - from)) > u64::MAX,
        decreases chars@.len() - i,
    {
        let c = chars[i];
        if !('0' <= c && c <= '9') {
            assert(body[i - from] == c);
            return None;
        }
        let d: u64 = ((c as u32) - 48) as u64;
        assert(body.take(i - from + 1).drop_last() == body.take(i - from));
        assert(body.take(i - from + 1).last() == c);
        assert(digits_value(body.take(i - from + 1)) == digits_value(body.take(i - from)) * 10 + d);
        if !over {
            if n > u64::MAX / 10 || n * 10 > u64::MAX - d {
                over = true;
            } else {
                n = n * 10 + d;
            }
        }
        i += 1;
    }
    assert(body.take(body.len() as int) == body);
    if over {
        None
    } else {
        Some(n)
    }
}

/// Reads an unsigned number: digits, after one plus sign at most.
pub fn parse_u64(s: &str) -> (r: Option<u64>)
    ensures
        r == match unsigned_upto(s@, u64::MAX as nat) {
            Some(n) => Some(n as u64),
            None => None,
        },
{
    let chars = chars_of(s);
    assert(chars@.skip(0) == chars@);
    if chars.len() > 0 && chars[0] == '+' {
        read_digits(&chars, 1)
    } else {
        read_digits(&chars, 0)
    }
}

/// Reads an unsigned number of 32 bits.
pub fn parse_u32(s: &str) -> (r: Option<u32>)
    ensures
        r == match unsigned_upto(s@, u32::MAX as nat) {
            Some(n) => Some(n as u32),
            None => None,
        },
{
    match parse_u64(s) {
        Some(n) if n <= 0xffff_ffff => Some(n as u32),
        _ => None,
    }
}

/// Reads a signed number: digits, after one sign at most.
pub fn parse_i64(s: &str) -> (r: Option<i64>)
    ensures
        r == match signed(s@) {
            Some(n) if i64::MIN <= n <= i64::MAX => Some(n as i64),
            _ => None,
        },
{
    let chars = chars_of(s);
    assert(chars@.skip(0) == chars@);
    if chars.len() > 0 && chars[0] == '-' {
        match read_digits(&chars, 1) {
            Some(n) if n <= 0x7fff_ffff_ffff_ffff => Some(-(n as i64)),
            Some(n) if n == 0x8000_0000_0000_0000 => Some(i64::MIN),
            _ => None,
        }
    } else if chars.len() > 0 && chars[0] == '+' {
        match read_digits(&chars, 1) {
            Some(n) if n <= 0x7fff_ffff_ffff_ffff => Some(n as i64),
            _ => None,
        }
    } else {
        match read_digits(&chars, 0) {
            Some(n) if n <= 0x7fff_ffff_ffff_ffff => Some(n as i64),
            _ => None,
        }
    }
}

/// Writes an unsigned number in decimal.
pub fn write_u64(n: u64) -> (s: String)
    ensures
        s@ == decimal(n as nat),
    decreases n,
{
    let mut s = if n < 10 {
        String::new()
    } else {
        write_u64(n / 10)
    };
    let d: u8 = (n % 10) as u8;
    let c: char = (48 + d) as char;
    s.push(c);
    proof {
        assert(c == digit_char((n % 10) as nat));
        if n < 10 {
            assert(s@ == seq![c]);
        }
    }
    s
}

/// Decimal text is made of digits, and counts to the number it writes.
pub proof fn decimal_reads_back(n: nat)
    ensures
        all_digits(decimal(n)),
        digits_value(decimal(n)) == n,
        unsigned(decimal(n)) == Some(n),
    decreases n,
{
    let last = digit_char(n % 10);
    assert(digit(last) && digit_value(last) == n % 10);
    if n < 10 {
        assert(decimal(n).drop_last() == Seq::<char>::empty());
        assert(digits_value(Seq::<char>::empty()) == 0);
    } else {
        decimal_reads_back(n / 10);
        assert(decimal(n).drop_last() == decimal(n / 10));
    }
    assert(decimal(n)[0] != '+');
}

/// Two numbers with the same decimal text are the same.
pub proof fn decimal_tells_apart(a: nat, b: nat)
    requires
        decimal(a) == decimal(b),
    ensures
        a == b,
{
    decimal_reads_back(a);
    decimal_reads_back(b);
}

/// Whether `part` stands in `s` from position `at` on.
pub open spec fn stands_at<A>(s: Seq<A>, part: Seq<A>, at: int) -> bool {
    0 <= at && at + part.len() <= s.len() && s.subrange(at, at + part.len()) == part
}

/// Whether `part` occurs anywhere in `s`.
pub open spec fn occurs<A>(s: Seq<A>, part: Seq<A>) -> bool {
    exists|at: int| #[trigger] stands_at(s, part, at)
}

/// Whether `part` stands in `chars` from position `at` on.
pub fn char_stands_at(chars: &Vec<char>, part: &Vec<char>, at: usize) -> (r: bool)
    ensures
        r == stands_at(chars@, part@, at as int),
{
    if at > chars.len() || chars.len() - at < part.len() {
        return false;
    }
    let mut i: usize = 0;
    while i < part.len()
        invariant
            i <= part@.len(),
            at + part@.len() <= chars.len(),
            forall|j: int| 0 <= j < i ==> chars@[at + j] == part@[j],
        decreases part@.len() - i,
    {
        if chars[at + i] != part[i] {
            assert(chars@.subrange(at as int, at + part@.len())[i as int] != part@[i as int]);
            return false;
        }
        i += 1;
    }
    assert(chars@.subrange(at as int, at + part@.len()) == part@);
    true
}

/// Whether `part` occurs in `s`.
pub fn contains(s: &str, part: &str) -> (r: bool)
    ensures
        r == occurs(s@, part@),
{
    let chars = chars_of(s);
    let needle = chars_of(part);
    let mut at: usize = 0;
    while at < chars.len()
        invariant
            at <= chars@.len(),
            chars@ == s@,
            needle@ == part@,
            forall|i: int| 0 <= i < at ==> !stands_at(s@, part@, i),
        decreases chars@.len() - at,
    {
        if char_stands_at(&chars, &needle, at) {
            return true;
        }
        at += 1;
    }
    char_stands_at(&chars, &needle, at)
}

/// Joins two texts.
pub fn glue(a: &str, b: &str) -> (r: String)
    ensures
        r@ == a@ + b@,
{
    let mut r = a.to_owned();
    vstd::string::StringExecFns::append(&mut r, b);
    r
}

/// A path below another one, as text: a separator stands between them unless
/// the first is empty or ends in one.
pub open spec fn joined(base: Seq<char>, rest: Seq<char>) -> Seq<char> {
    if base.len() == 0 || base.last() == '/' {
        base + rest
    } else {
        base + "/"@ + rest
    }
}

/// Joins a path and a relative one.
pub fn join_path(base: &str, rest: &str) -> (r: String)
    ensures
        r@ == joined(base@, rest@),
{
    let chars = chars_of(base);
    if chars.len() == 0 || chars[chars.len() - 1] == '/' {
        glue(base, rest)
    } else {
        glue(glue(base, "/").as_str(), rest)
    }
}

/// Where the text after the last occurrence of a character starts; at the
/// beginning when there is none.
pub open spec fn after_last(s: Seq<char>, c: char) -> int
    decreases s.len(),
{
    if s.len() == 0 {
        0
    } else if s.last() == c {
        s.len() as int
    } else {
        after_last(s.drop_last(), c)
    }
}

/// The text after the last occurrence of a character starts within the text,
/// right behind the character, and does not hold it.
pub proof fn after_last_is_within(s: Seq<char>, c: char)
    ensures
        0 <= after_last(s, c) <= s.len(),
        after_last(s, c) > 0 ==> s[after_last(s, c) - 1] == c,
        forall|i: int| after_last(s, c) <= i < s.len() ==> #[trigger] s[i] != c,
    decreases s.len(),
{
    if s.len() > 0 && s.last() != c {
        after_last_is_within(s.drop_last(), c);
        assert forall|i: int| after_last(s, c) <= i < s.len() implies #[trigger] s[i] != c by {
            if i < s.len() - 1 {
                assert(s.drop_last()[i] == s[i]);
            }
        }
    }
}

/// Where the text after the last occurrence of a character starts, among the
/// first `end` characters.
pub fn find_after_last(chars: &Vec<char>, end: usize, c: char) -> (r: usize)
    requires
        end <= chars@.len(),
    ensures
        r == after_last(chars@.take(end as int), c),
        r <= end,
{
    let ghost here = chars@.take(end as int);
    let mut at: usize = end;
    assert(here.take(at as int) == here);
    while at > 0 && chars[at - 1] != c
        invariant
            at <= end,
            end <= chars@.len(),
            here == chars@.take(end as int),
            after_last(here, c) == after_last(here.take(at as int), c),
        decreases at,
    {
        assert(here.take(at as int).last() == chars@[at - 1]);
        assert(here.take(at as int).drop_last() == here.take(at - 1));
        at -= 1;
    }
    assert(at > 0 ==> here.take(at as int).last() == c);
    at
}

/// White space is what Unicode's `White_Space` lists: tabs and line breaks,
/// the spaces of all widths, and the separators of lines and paragraphs.
pub proof fn white_space_is_unicodes(c: char, r: bool)
    requires
        call_ensures(is_white, (c,), r),
    ensures
        r <==> (c as u32 >= 9 && c as u32 <= 13) || c as u32 == 32 || c as u32 == 133 || c as u32
            == 160 || c as u32 == 5760 || (c as u32 >= 8192 && c as u32 <= 8202) || c as u32
            == 8232 || c as u32 == 8233 || c as u32 == 8239 || c as u32 == 8287 || c as u32
            == 12288,
        r == white(c),
{
}

/// Control characters are the two blocks of Unicode's category `Cc`, and no
/// others: no letter of any script is one.
pub proof fn controls_are_unicodes(c: char, r: bool)
    requires
        call_ensures(is_control, (c,), r),
    ensures
        r <==> (c as u32 <= 31 || (c as u32 >= 127 && c as u32 <= 159)),
        c as u32 >= 160 ==> !r,
        r == control(c),
{
}

/// Trimming takes away white space only, and all of it at both ends: what is
/// left starts and ends with something else, and what stood before and after
/// it was white.
pub proof fn trimming_takes_white_ends_only(s: &str, r: String) -> (cut: (int, int))
    requires
        call_ensures(trim, (s,), r),
    ensures
        0 <= cut.0 <= cut.1 <= s@.len(),
        r@ == s@.subrange(cut.0, cut.1),
        r@ == trimmed(s@),
        forall|i: int| 0 <= i < cut.0 ==> white(#[trigger] s@[i]),
        forall|i: int| cut.1 <= i < s@.len() ==> white(#[trigger] s@[i]),
        r@.len() > 0 ==> !white(r@[0]) && !white(r@.last()),
{
    trimmed_is_cut(s@)
}

/// What is trimmed is a part of the text: white space stood before and after
/// it, and it neither starts nor ends with any.
pub proof fn trimmed_is_cut(s: Seq<char>) -> (cut: (int, int))
    ensures
        0 <= cut.0 <= cut.1 <= s.len(),
        trimmed(s) == s.subrange(cut.0, cut.1),
        forall|i: int| 0 <= i < cut.0 ==> white(#[trigger] s[i]),
        forall|i: int| cut.1 <= i < s.len() ==> white(#[trigger] s[i]),
        trimmed(s).len() > 0 ==> !white(trimmed(s)[0]) && !white(trimmed(s).last()),
{
    let from = start_is_cut(s);
    let rest = trimmed_start(s);
    let len = end_is_cut(rest);
    assert(trimmed(s) =~= s.subrange(from, from + len));
    assert forall|i: int| from + len <= i < s.len() implies white(#[trigger] s[i]) by {
        assert(rest[i - from] == s[i]);
    }
    (from, from + len)
}

proof fn start_is_cut(s: Seq<char>) -> (from: int)
    ensures
        0 <= from <= s.len(),
        trimmed_start(s) == s.skip(from),
        forall|i: int| 0 <= i < from ==> white(#[trigger] s[i]),
        from < s.len() ==> !white(s[from]),
    decreases s.len(),
{
    if s.len() > 0 && white(s[0]) {
        let rest = s.skip(1);
        let from = start_is_cut(rest);
        assert(rest.skip(from) =~= s.skip(from + 1));
        assert forall|i: int| 0 <= i < from + 1 implies white(#[trigger] s[i]) by {
            if i > 0 {
                assert(rest[i - 1] == s[i]);
            }
        }
        assert(from < rest.len() ==> rest[from] == s[from + 1]);
        from + 1
    } else {
        assert(s.skip(0) =~= s);
        0
    }
}

proof fn end_is_cut(s: Seq<char>) -> (to: int)
    ensures
        0 <= to <= s.len(),
        trimmed_end(s) == s.take(to),
        forall|i: int| to <= i < s.len() ==> white(#[trigger] s[i]),
        to > 0 ==> !white(s[to - 1]),
    decreases s.len(),
{
    if s.len() > 0 && white(s.last()) {
        let rest = s.drop_last();
        let to = end_is_cut(rest);
        assert(rest.take(to) =~= s.take(to));
        assert forall|i: int| to <= i < s.len() implies white(#[trigger] s[i]) by {
            if i < s.len() - 1 {
                assert(rest[i] == s[i]);
            }
        }
        to
    } else {
        assert(s.take(s.len() as int) =~= s);
        s.len() as int
    }
}

/// Text without white space at its ends is trimmed to itself, whatever stands
/// between.
pub proof fn tidy_text_stays(s: Seq<char>)
    requires
        s.len() > 0 ==> !white(s[0]) && !white(s.last()),
    ensures
        trimmed(s) == s,
{
}

/// An input counts exactly when something else than white space is in it, and
/// then as what is left without the white space around it.
pub proof fn blank_input_is_dropped(s: Option<&str>, r: Option<String>)
    requires
        call_ensures(fill, (s,), r),
    ensures
        r is Some <==> (s matches Some(s) && exists|i: int|
            0 <= i < s@.len() && !white(#[trigger] s@[i])),
        r matches Some(r) ==> (s matches Some(s) && r@ == trimmed(s@)),
{
    if let Some(s) = s {
        let cut = trimmed_is_cut(s@);
        if trimmed(s@).len() > 0 {
            assert(!white(s@[cut.0]));
        } else {
            assert forall|i: int| 0 <= i < s@.len() implies white(#[trigger] s@[i]) by {}
        }
    }
}

/// Lower case touches the letters from A to Z only, and each by itself.
pub proof fn lowering_is_ascii(s: &str, r: String)
    requires
        call_ensures(to_lowered, (s,), r),
    ensures
        r@.len() == s@.len(),
        forall|i: int|
            0 <= i < s@.len() ==> (#[trigger] r@[i]) as u32 == if 65 <= s@[i] as u32 <= 90 {
                s@[i] as u32 + 32
            } else {
                s@[i] as u32 as int
            },
        r@ == lowered(s@),
{
}

/// Digits count in tens: one more digit behind a run of them makes ten times
/// as much and the digit.
pub proof fn digits_count_in_tens(s: Seq<char>, c: char)
    requires
        48 <= c as u32 <= 57,
    ensures
        digits_value(Seq::<char>::empty()) == 0,
        digits_value(s.push(c)) == digits_value(s) * 10 + (c as u32 - 48),
        all_digits(seq![c]),
        all_digits(s) ==> all_digits(s.push(c)),
{
    assert(s.push(c).drop_last() =~= s);
}

/// A text is all digits exactly when it holds something and nothing but the
/// characters from 0 to 9.
pub proof fn digits_are_ascii(s: Seq<char>)
    ensures
        all_digits(s) <==> s.len() > 0 && forall|i: int|
            0 <= i < s.len() ==> '0' <= #[trigger] s[i] <= '9',
{
}

/// Decimal text has no leading zero, and one digit more stands for ten times
/// as much.
pub proof fn decimal_is_short(n: nat)
    ensures
        decimal(n).len() > 0,
        n > 0 ==> decimal(n)[0] != '0',
        n < 10 ==> decimal(n).len() == 1,
        n >= 10 ==> decimal(n).len() == decimal(n / 10).len() + 1,
        n >= 0 ==> decimal_int(n as int) == decimal(n),
        n > 0 ==> decimal_int(-(n as int)) == seq!['-'] + decimal(n),
    decreases n,
{
    if n >= 10 {
        decimal_is_short(n / 10);
    }
}

/// A number is read from digits behind at most one plus sign, as what they
/// count to, where that fits; anything else is none.
pub proof fn numbers_are_digits(s: &str, r: Option<u64>, small: Option<u32>)
    requires
        call_ensures(parse_u64, (s,), r),
        call_ensures(parse_u32, (s,), small),
    ensures
        all_digits(s@) && digits_value(s@) <= 18446744073709551615 ==> (r matches Some(n) && n
            == digits_value(s@)),
        all_digits(s@) && digits_value(s@) <= 4294967295 ==> (small matches Some(n) && n
            == digits_value(s@)),
        s@.len() > 0 && s@[0] == '+' && all_digits(s@.skip(1)) && digits_value(s@.skip(1))
            <= 18446744073709551615 ==> (r matches Some(n) && n == digits_value(s@.skip(1))),
        r matches Some(n) ==> (all_digits(s@) && digits_value(s@) == n) || (s@.len() > 0 && s@[0]
            == '+' && all_digits(s@.skip(1)) && digits_value(s@.skip(1)) == n),
        small matches Some(n) ==> r == Some(n as u64),
        (r matches Some(n) && n <= 4294967295) ==> small is Some,
{
    assert(all_digits(s@) ==> digit(s@[0]));
}

/// A signed number is the unsigned one behind at most one sign, taken off
/// zero behind a minus.
pub proof fn signed_numbers_mirror(s: &str, r: Option<i64>)
    requires
        call_ensures(parse_i64, (s,), r),
    ensures
        all_digits(s@) && digits_value(s@) <= 9223372036854775807 ==> (r matches Some(n) && n
            == digits_value(s@)),
        s@.len() > 0 && s@[0] == '-' && all_digits(s@.skip(1)) && digits_value(s@.skip(1))
            <= 9223372036854775808 ==> (r matches Some(n) && n == -(digits_value(
            s@.skip(1),
        ) as int)),
        r matches Some(n) ==> (all_digits(s@) && n == digits_value(s@)) || (s@.len() > 0 && s@[0]
            == '+' && all_digits(s@.skip(1)) && n == digits_value(s@.skip(1))) || (s@.len() > 0
            && s@[0] == '-' && all_digits(s@.skip(1)) && n == -(digits_value(s@.skip(1)) as int)),
        s@.len() > 0 && s@[0] == '+' && all_digits(s@.skip(1)) && digits_value(s@.skip(1))
            <= 9223372036854775807 ==> r is Some,
{
    assert(all_digits(s@) ==> digit(s@[0]));
}

/// What is written in decimal is read as the same number again.
pub proof fn written_numbers_read_back(n: u64, text: String, s: &str, r: Option<u64>)
    requires
        call_ensures(write_u64, (n,), text),
        s@ == text@,
        call_ensures(parse_u64, (s,), r),
    ensures
        r == Some(n),
{
    decimal_reads_back(n as nat);
}

/// A text occurs in another one exactly when that is something before it, the
/// text, and something behind it.
pub proof fn occurring_is_standing_between(s: &str, part: &str, r: bool)
    requires
        call_ensures(contains, (s, part), r),
    ensures
        r <==> exists|before: Seq<char>, after: Seq<char>| s@ == #[trigger] (before + part@ + after),
        r == occurs(s@, part@),
{
    if r {
        let at = choose|at: int| #[trigger] stands_at(s@, part@, at);
        let before = s@.take(at);
        let after = s@.skip(at + part@.len());
        assert(s@ =~= before + part@ + after);
    }
    if exists|before: Seq<char>, after: Seq<char>| s@ == #[trigger] (before + part@ + after) {
        let (before, after) = choose|before: Seq<char>, after: Seq<char>|
            s@ == #[trigger] (before + part@ + after);
        assert(s@.subrange(before.len() as int, before.len() as int + part@.len()) =~= part@);
        assert(stands_at(s@, part@, before.len() as int));
    }
}

/// A path is joined with exactly one separator, which may be there already;
/// below nothing, nothing is put in front.
pub proof fn paths_join_once(base: &str, rest: &str, r: String)
    requires
        call_ensures(join_path, (base, rest), r),
    ensures
        base@.len() == 0 ==> r@ == rest@,
        base@.len() > 0 && base@.last() == '/' ==> r@ == base@ + rest@,
        base@.len() > 0 && base@.last() != '/' ==> r@ == base@ + seq!['/'] + rest@,
        r@ == joined(base@, rest@),
{
    reveal_strlit("/");
    assert("/"@ =~= seq!['/']);
    assert(base@.len() == 0 ==> base@ + rest@ =~= rest@);
}

/// Two texts are the same exactly when they have the same characters in the
/// same places; one behind the other they have all of both.
pub proof fn texts_are_their_characters(a: &str, b: &str, r: bool, both: String)
    requires
        call_ensures(same, (a, b), r),
        call_ensures(glue, (a, b), both),
    ensures
        r <==> a@.len() == b@.len() && forall|i: int|
            0 <= i < a@.len() ==> #[trigger] a@[i] == b@[i],
        both@.len() == a@.len() + b@.len(),
        both@.take(a@.len() as int) == a@,
        both@.skip(a@.len() as int) == b@,
{
    if a@.len() == b@.len() && (forall|i: int| 0 <= i < a@.len() ==> #[trigger] a@[i] == b@[i]) {
        assert(a@ =~= b@);
    }
    assert(both@.take(a@.len() as int) =~= a@);
    assert(both@.skip(a@.len() as int) =~= b@);
}

/// A text that may be missing is missing exactly when it is, and else the text
/// itself.
pub proof fn missing_texts_are_missing(owned: Option<String>, lent: Option<&str>)
    ensures
        opt_view(owned) is Some <==> owned is Some,
        owned matches Some(s) ==> opt_view(owned) == Some(s@),
        opt_str(lent) is Some <==> lent is Some,
        lent matches Some(s) ==> opt_str(lent) == Some(s@),
{
}

/// An integer is written as its digits, with a minus in front where it is
/// negative.
pub proof fn integers_are_written_with_a_sign(n: int)
    ensures
        n >= 0 ==> decimal_int(n) == decimal(n as nat),
        n < 0 ==> decimal_int(n) == seq!['-'] + decimal((-n) as nat),
{
}

/// A part stands at a place exactly when it fits there and each of its items is
/// the one of the whole at that place.
pub proof fn parts_stand_item_by_item<A>(s: Seq<A>, part: Seq<A>, at: int)
    ensures
        stands_at(s, part, at) <==> 0 <= at && at + part.len() <= s.len() && forall|i: int|
            0 <= i < part.len() ==> #[trigger] part[i] == s[at + i],
{
    if 0 <= at && at + part.len() <= s.len() {
        let there = s.subrange(at, at + part.len());
        if stands_at(s, part, at) {
            assert forall|i: int| 0 <= i < part.len() implies #[trigger] part[i] == s[at + i] by {
                assert(there[i] == s[at + i]);
            }
        }
        if forall|i: int| 0 <= i < part.len() ==> #[trigger] part[i] == s[at + i] {
            assert(there =~= part);
        }
    }
}

/// The text after the last of a character: all of it where there is none, and
/// else what is behind a place that has it and behind which none has.
pub proof fn last_ones_are_found(s: Seq<char>, c: char)
    ensures
        0 <= after_last(s, c) <= s.len(),
        after_last(s, c) > 0 ==> s[after_last(s, c) - 1] == c,
        forall|i: int| after_last(s, c) <= i < s.len() ==> #[trigger] s[i] != c,
    decreases s.len(),
{
    if s.len() > 0 && s.last() != c {
        last_ones_are_found(s.drop_last(), c);
        assert forall|i: int| after_last(s, c) <= i < s.len() implies #[trigger] s[i] != c by {
            if i < s.len() - 1 {
                assert(s.drop_last()[i] == s[i]);
            }
        }
    }
}

/// Copies of a text are the text.
pub proof fn copies_are_the_text(
    s: &str,
    chars: Vec<char>,
    to: usize,
    whole: String,
    owned: Option<String>,
    copy: Option<String>,
    lent: Option<&str>,
    again: Option<String>,
)
    requires
        call_ensures(chars_of, (s,), chars),
        to <= chars@.len(),
        call_ensures(text_of, (&chars, 0, to), whole),
        call_ensures(opt_clone, (&owned,), copy),
        call_ensures(opt_borrow, (&owned,), lent),
        call_ensures(opt_owned, (lent,), again),
    ensures
        chars@ == s@,
        whole@ == s@.take(to as int),
        owned is None ==> copy is None && lent is None && again is None,
        owned matches Some(it) ==> copy is Some && lent is Some && again is Some && copy->Some_0@
            == it@ && lent->Some_0@ == it@ && again->Some_0@ == it@,
{
    assert(whole@ =~= s@.take(to as int));
}

} // verus!
