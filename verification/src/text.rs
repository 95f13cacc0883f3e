//! Text helpers: the ordering of strings (the order in which the store lists
//! string keys) and the normalisation of a freelancer's name into an address.

use vstd::prelude::*;
use vstd::string::*;

verus! {

/// The outcome of comparing two strings.
#[derive(PartialEq, Eq, Structural, Debug, Clone, Copy)]
pub enum TextOrder {
    Less,
    Equal,
    Greater,
}

/// Lexicographic order of two character sequences by code point. UTF-8
/// encoding preserves code-point order, so this is the order that Rust's
/// `Ord` for `str` gives (byte-wise lexicographic).
pub open spec fn text_order(a: Seq<char>, b: Seq<char>) -> TextOrder
    decreases a.len(),
{
    if a.len() == 0 {
        if b.len() == 0 {
            TextOrder::Equal
        } else {
            TextOrder::Less
        }
    } else if b.len() == 0 {
        TextOrder::Greater
    } else if (a[0] as u32) < (b[0] as u32) {
        TextOrder::Less
    } else if (a[0] as u32) > (b[0] as u32) {
        TextOrder::Greater
    } else {
        text_order(a.drop_first(), b.drop_first())
    }
}

/// `a` sorts strictly before `b`.
pub open spec fn text_lt(a: Seq<char>, b: Seq<char>) -> bool {
    text_order(a, b) == TextOrder::Less
}

/// Two sequences compare `Equal` exactly when they are the same sequence.
pub proof fn lemma_text_order_equal(a: Seq<char>, b: Seq<char>)
    ensures
        (text_order(a, b) == TextOrder::Equal) <==> (a == b),
    decreases a.len(),
{
    if a.len() != 0 && b.len() != 0 {
        lemma_text_order_equal(a.drop_first(), b.drop_first());
        if (a[0] as u32) == (b[0] as u32) {
            vstd::utf8::char_u32_cast(a[0], a[0] as u32);
            vstd::utf8::char_u32_cast(b[0], b[0] as u32);
            assert(a[0] == b[0]);
            if a.drop_first() == b.drop_first() {
                assert(a =~= seq![a[0]] + a.drop_first());
                assert(b =~= seq![b[0]] + b.drop_first());
            }
        }
        if a == b {
            assert(a.drop_first() == b.drop_first());
        }
    }
    if a.len() == 0 && b.len() == 0 {
        assert(a =~= b);
    }
}

/// Swapping the arguments swaps `Less` and `Greater`.
pub proof fn lemma_text_order_flip(a: Seq<char>, b: Seq<char>)
    ensures
        (text_order(a, b) == TextOrder::Less) <==> (text_order(b, a) == TextOrder::Greater),
        (text_order(a, b) == TextOrder::Greater) <==> (text_order(b, a) == TextOrder::Less),
    decreases a.len(),
{
    if a.len() != 0 && b.len() != 0 {
        lemma_text_order_flip(a.drop_first(), b.drop_first());
    }
}

/// `Less` is transitive.
pub proof fn lemma_text_lt_transitive(a: Seq<char>, b: Seq<char>, c: Seq<char>)
    requires
        text_lt(a, b),
        text_lt(b, c),
    ensures
        text_lt(a, c),
    decreases a.len(),
{
    if a.len() != 0 && b.len() != 0 && c.len() != 0 {
        if (a[0] as u32) == (b[0] as u32) && (b[0] as u32) == (c[0] as u32) {
            lemma_text_lt_transitive(a.drop_first(), b.drop_first(), c.drop_first());
        }
    }
}

/// `Less` is irreflexive.
pub proof fn lemma_text_lt_irreflexive(a: Seq<char>)
    ensures
        !text_lt(a, a),
{
    lemma_text_order_equal(a, a);
}

/// The characters of `s`, in order.
pub fn chars_of(s: &str) -> (r: Vec<char>)
    ensures
        r@ == s@,
{
    let n = s.unicode_len();
    let mut r: Vec<char> = Vec::new();
    let mut i: usize = 0;
    while i < n
        invariant
            n == s@.len(),
            i <= n,
            r@ == s@.subrange(0, i as int),
        decreases n - i,
    {
        let c = s.get_char(i);
        r.push(c);
        i = i + 1;
        assert(r@ =~= s@.subrange(0, i as int));
    }
    assert(r@ =~= s@);
    r
}

/// Compares two strings in the order given by [`text_order`].
pub fn compare_text(a: &str, b: &str) -> (r: TextOrder)
    ensures
        r == text_order(a@, b@),
{
    let ca = chars_of(a);
    let cb = chars_of(b);
    let la = ca.len();
    let lb = cb.len();
    let mut i: usize = 0;
    assert(a@.skip(0) =~= a@);
    assert(b@.skip(0) =~= b@);
    while i < la && i < lb
        invariant
            la == a@.len(),
            lb == b@.len(),
            ca@ == a@,
            cb@ == b@,
            i <= la,
            i <= lb,
            text_order(a@, b@) == text_order(a@.skip(i as int), b@.skip(i as int)),
        decreases la - i,
    {
        let x = ca[i];
        let y = cb[i];
        assert(a@.skip(i as int)[0] == x);
        assert(b@.skip(i as int)[0] == y);
        if (x as u32) < (y as u32) {
            return TextOrder::Less;
        } else if (x as u32) > (y as u32) {
            return TextOrder::Greater;
        }
        assert(a@.skip(i as int).drop_first() =~= a@.skip(i + 1));
        assert(b@.skip(i as int).drop_first() =~= b@.skip(i + 1));
        i = i + 1;
    }
    if i == la {
        if i == lb {
            TextOrder::Equal
        } else {
            TextOrder::Less
        }
    } else {
        TextOrder::Greater
    }
}


/// Whether `c` has the Unicode `White_Space` property (the property that
/// `char::is_whitespace` and `str::trim` go by): U+0009..U+000D, U+0020,
/// U+0085, U+00A0, U+1680, U+2000..U+200A, U+2028, U+2029, U+202F, U+205F
/// and U+3000.
pub open spec fn unicode_white_space(c: char) -> bool {
    let v = c as u32;
    ||| 0x09 <= v <= 0x0D
    ||| v == 0x20
    ||| v == 0x85
    ||| v == 0xA0
    ||| v == 0x1680
    ||| 0x2000 <= v <= 0x200A
    ||| v == 0x2028
    ||| v == 0x2029
    ||| v == 0x202F
    ||| v == 0x205F
    ||| v == 0x3000
}

/// The Unicode lower-case mapping of a whole string.
pub uninterp spec fn unicode_lowercase(s: Seq<char>) -> Seq<char>;

/// Whether `c` is white space, in the sense of [`unicode_white_space`].
pub fn is_whitespace_char(c: char) -> (r: bool)
    ensures
        r == unicode_white_space(c),
{
    let v = c as u32;
    (0x09 <= v && v <= 0x0D) || v == 0x20 || v == 0x85 || v == 0xA0 || v == 0x1680 || (0x2000
        <= v && v <= 0x200A) || v == 0x2028 || v == 0x2029 || v == 0x202F || v == 0x205F || v
        == 0x3000
}

/// Every character of `s` is ASCII.
pub open spec fn all_ascii(s: Seq<char>) -> bool {
    forall|i: int| 0 <= i < s.len() ==> (#[trigger] s[i] as u32) < 128
}

/// `s` with the ASCII letters `A`..`Z` turned into `a`..`z`.
pub open spec fn ascii_lowercase(s: Seq<char>) -> Seq<char> {
    s.map_values(
        |c: char|
            if 65 <= (c as u32) <= 90 {
                ((c as u32) + 32) as char
            } else {
                c
            },
    )
}

/// Calls `str::to_lowercase`. Its result is the Unicode lower-case mapping of
/// the string; the contract names that mapping, and spells it out only for
/// ASCII text, where Unicode maps `A`..`Z` to `a`..`z` and leaves every
/// other character as it is.
#[verifier::external_body]
fn lowercase_text(s: &str) -> (r: String)
    ensures
        r@ == unicode_lowercase(s@),
        all_ascii(s@) ==> r@ == ascii_lowercase(s@),
{
    s.to_lowercase()
}

/// Calls `String::push`, which appends one character.
#[verifier::external_body]
fn push_char(s: &mut String, c: char)
    ensures
        final(s)@ == old(s)@.push(c),
{
    s.push(c)
}

/// `s` without its leading white space.
pub open spec fn trim_start_ws(s: Seq<char>) -> Seq<char>
    decreases s.len(),
{
    if s.len() > 0 && unicode_white_space(s[0]) {
        trim_start_ws(s.drop_first())
    } else {
        s
    }
}

/// `s` without its trailing white space.
pub open spec fn trim_end_ws(s: Seq<char>) -> Seq<char>
    decreases s.len(),
{
    if s.len() > 0 && unicode_white_space(s.last()) {
        trim_end_ws(s.drop_last())
    } else {
        s
    }
}

/// `s` without leading and trailing white space (what `str::trim` returns).
pub open spec fn trim_ws(s: Seq<char>) -> Seq<char> {
    trim_end_ws(trim_start_ws(s))
}

/// `s` with every space replaced by a hyphen.
pub open spec fn dash_spaces(s: Seq<char>) -> Seq<char> {
    s.map_values(|c: char| if c == ' ' { '-' } else { c })
}

/// The address under which a freelancer with display name `name` is
/// registered: the name trimmed, lower-cased, with spaces turned into hyphens.
pub open spec fn address_for(name: Seq<char>) -> Seq<char> {
    dash_spaces(unicode_lowercase(trim_ws(name)))
}

/// The characters `cs[from..to]` as a `String`.
fn string_from_range(cs: &Vec<char>, from: usize, to: usize) -> (r: String)
    requires
        from <= to <= cs@.len(),
    ensures
        r@ == cs@.subrange(from as int, to as int),
{
    let mut r = String::new();
    let mut k: usize = from;
    while k < to
        invariant
            from <= k <= to,
            to <= cs@.len(),
            r@ == cs@.subrange(from as int, k as int),
        decreases to - k,
    {
        push_char(&mut r, cs[k]);
        k = k + 1;
        assert(r@ =~= cs@.subrange(from as int, k as int));
    }
    r
}

/// `s` with leading and trailing white space removed.
pub fn trim_text(s: &str) -> (r: String)
    ensures
        r@ == trim_ws(s@),
{
    let cs = chars_of(s);
    let n = cs.len();
    let mut i: usize = 0;
    assert(s@.skip(0) =~= s@);
    while i < n && is_whitespace_char(cs[i])
        invariant
            n == s@.len(),
            cs@ == s@,
            i <= n,
            trim_start_ws(s@) == trim_start_ws(s@.skip(i as int)),
        decreases n - i,
    {
        assert(s@.skip(i as int).drop_first() =~= s@.skip(i + 1));
        i = i + 1;
    }
    assert(trim_start_ws(s@.skip(i as int)) == s@.skip(i as int));
    let mut j: usize = n;
    assert(s@.skip(i as int) =~= s@.subrange(i as int, n as int));
    while j > i && is_whitespace_char(cs[j - 1])
        invariant
            n == s@.len(),
            cs@ == s@,
            i <= j <= n,
            trim_ws(s@) == trim_end_ws(s@.subrange(i as int, j as int)),
        decreases j - i,
    {
        assert(s@.subrange(i as int, j as int).drop_last() =~= s@.subrange(i as int, j - 1));
        j = j - 1;
    }
    assert(trim_end_ws(s@.subrange(i as int, j as int)) == s@.subrange(i as int, j as int));
    string_from_range(&cs, i, j)
}

/// `s` with every space replaced by a hyphen.
pub fn dash_text(s: &str) -> (r: String)
    ensures
        r@ == dash_spaces(s@),
{
    let cs = chars_of(s);
    let n = cs.len();
    let mut r = String::new();
    let mut k: usize = 0;
    while k < n
        invariant
            n == s@.len(),
            cs@ == s@,
            k <= n,
            r@ == dash_spaces(s@.subrange(0, k as int)),
        decreases n - k,
    {
        let c = cs[k];
        if c == ' ' {
            push_char(&mut r, '-');
        } else {
            push_char(&mut r, c);
        }
        k = k + 1;
        assert(r@ =~= dash_spaces(s@.subrange(0, k as int)));
    }
    assert(s@.subrange(0, n as int) =~= s@);
    r
}

proof fn lemma_trim_start_shape(s: Seq<char>)
    ensures
        exists|i: int|
            {
                &&& 0 <= i <= s.len()
                &&& trim_start_ws(s) == s.subrange(i, s.len() as int)
                &&& forall|k: int| 0 <= k < i ==> unicode_white_space(#[trigger] s[k])
                &&& i < s.len() ==> !unicode_white_space(s[i])
            },
    decreases s.len(),
{
    if s.len() > 0 && unicode_white_space(s[0]) {
        let t = s.drop_first();
        lemma_trim_start_shape(t);
        let i = choose|i: int|
            {
                &&& 0 <= i <= t.len()
                &&& trim_start_ws(t) == t.subrange(i, t.len() as int)
                &&& forall|k: int| 0 <= k < i ==> unicode_white_space(#[trigger] t[k])
                &&& i < t.len() ==> !unicode_white_space(t[i])
            };
        assert(t.subrange(i, t.len() as int) =~= s.subrange(i + 1, s.len() as int));
        assert forall|k: int| 0 <= k < i + 1 implies unicode_white_space(#[trigger] s[k]) by {
            if k > 0 {
                assert(s[k] == t[k - 1]);
            }
        }
        if i + 1 < s.len() {
            assert(s[i + 1] == t[i]);
        }
    } else {
        assert(s.subrange(0, s.len() as int) =~= s);
    }
}

proof fn lemma_trim_end_shape(s: Seq<char>)
    ensures
        exists|j: int|
            {
                &&& 0 <= j <= s.len()
                &&& trim_end_ws(s) == s.subrange(0, j)
                &&& forall|k: int| j <= k < s.len() ==> unicode_white_space(#[trigger] s[k])
                &&& j > 0 ==> !unicode_white_space(s[j - 1])
            },
    decreases s.len(),
{
    if s.len() > 0 && unicode_white_space(s.last()) {
        let t = s.drop_last();
        lemma_trim_end_shape(t);
        let j = choose|j: int|
            {
                &&& 0 <= j <= t.len()
                &&& trim_end_ws(t) == t.subrange(0, j)
                &&& forall|k: int| j <= k < t.len() ==> unicode_white_space(#[trigger] t[k])
                &&& j > 0 ==> !unicode_white_space(t[j - 1])
            };
        assert(t.subrange(0, j) =~= s.subrange(0, j));
        assert forall|k: int| j <= k < s.len() implies unicode_white_space(#[trigger] s[k]) by {
            if k < s.len() - 1 {
                assert(s[k] == t[k]);
            }
        }
    } else {
        assert(s.subrange(0, s.len() as int) =~= s);
    }
}

/// Trimming keeps a contiguous run of `s`: everything before it and after it
/// is white space, and, when the run is not empty, it neither starts nor
/// ends with white space.
pub proof fn lemma_trim_ws_shape(s: Seq<char>)
    ensures
        exists|i: int, j: int|
            {
                &&& 0 <= i <= j <= s.len()
                &&& trim_ws(s) == s.subrange(i, j)
                &&& forall|k: int| 0 <= k < i ==> unicode_white_space(#[trigger] s[k])
                &&& forall|k: int| j <= k < s.len() ==> unicode_white_space(#[trigger] s[k])
                &&& i < j ==> !unicode_white_space(s[i]) && !unicode_white_space(s[j - 1])
            },
{
    lemma_trim_start_shape(s);
    let i = choose|i: int|
        {
            &&& 0 <= i <= s.len()
            &&& trim_start_ws(s) == s.subrange(i, s.len() as int)
            &&& forall|k: int| 0 <= k < i ==> unicode_white_space(#[trigger] s[k])
            &&& i < s.len() ==> !unicode_white_space(s[i])
        };
    let t = s.subrange(i, s.len() as int);
    lemma_trim_end_shape(t);
    let j = choose|j: int|
        {
            &&& 0 <= j <= t.len()
            &&& trim_end_ws(t) == t.subrange(0, j)
            &&& forall|k: int| j <= k < t.len() ==> unicode_white_space(#[trigger] t[k])
            &&& j > 0 ==> !unicode_white_space(t[j - 1])
        };
    assert(t.subrange(0, j) =~= s.subrange(i, i + j));
    assert forall|k: int| i + j <= k < s.len() implies unicode_white_space(#[trigger] s[k]) by {
        assert(s[k] == t[k - i]);
    }
    if i < i + j {
        assert(s[i + j - 1] == t[j - 1]);
    }
    assert(trim_ws(s) == s.subrange(i, i + j));
}

/// The address for `name` is its trimmed, lower-cased form with every space
/// turned into a hyphen, character by character; it holds no space.
pub proof fn lemma_address_shape(name: Seq<char>)
    ensures
        address_for(name).len() == unicode_lowercase(trim_ws(name)).len(),
        forall|k: int|
            0 <= k < address_for(name).len() ==> #[trigger] address_for(name)[k] == if unicode_lowercase(
                trim_ws(name),
            )[k] == ' ' {
                '-'
            } else {
                unicode_lowercase(trim_ws(name))[k]
            },
        !address_for(name).contains(' '),
{
    let a = address_for(name);
    if a.contains(' ') {
        let k = choose|k: int| 0 <= k < a.len() && a[k] == ' ';
        assert(a[k] == ' ');
    }
}

/// The address a freelancer registering under `name` receives. For an
/// all-ASCII name it is the trimmed name with `A`..`Z` lower-cased and every
/// space turned into a hyphen.
pub fn address_of(name: &str) -> (r: String)
    ensures
        r@ == address_for(name@),
        all_ascii(name@) ==> {
            &&& r@.len() == trim_ws(name@).len()
            &&& forall|k: int|
                0 <= k < r@.len() ==> #[trigger] r@[k] == if trim_ws(name@)[k] == ' ' {
                    '-'
                } else if 65 <= (trim_ws(name@)[k] as u32) <= 90 {
                    ((trim_ws(name@)[k] as u32) + 32) as char
                } else {
                    trim_ws(name@)[k]
                }
        },
{
    let trimmed = trim_text(name);
    proof {
        lemma_trim_ws_shape(name@);
        if all_ascii(name@) {
            let (i, j) = choose|i: int, j: int|
                {
                    &&& 0 <= i <= j <= name@.len()
                    &&& trim_ws(name@) == name@.subrange(i, j)
                    &&& forall|k: int| 0 <= k < i ==> unicode_white_space(#[trigger] name@[k])
                    &&& forall|k: int|
                        j <= k < name@.len() ==> unicode_white_space(#[trigger] name@[k])
                    &&& i < j ==> !unicode_white_space(name@[i]) && !unicode_white_space(
                        name@[j - 1],
                    )
                };
            assert forall|k: int| 0 <= k < trimmed@.len() implies (#[trigger] trimmed@[k] as u32)
                < 128 by {
                assert(trimmed@[k] == name@[i + k]);
            }
        }
    }
    let lower = lowercase_text(trimmed.as_str());
    let r = dash_text(lower.as_str());
    proof {
        if all_ascii(name@) {
            assert forall|k: int| 0 <= k < r@.len() implies #[trigger] r@[k] == if trim_ws(
                name@,
            )[k] == ' ' {
                '-'
            } else if 65 <= (trim_ws(name@)[k] as u32) <= 90 {
                ((trim_ws(name@)[k] as u32) + 32) as char
            } else {
                trim_ws(name@)[k]
            } by {
                let c = trimmed@[k];
                assert(lower@[k] == if 65 <= (c as u32) <= 90 {
                    ((c as u32) + 32) as char
                } else {
                    c
                });
                if 65 <= (c as u32) <= 90 {
                    assert(c != ' ');
                    assert((((c as u32) + 32) as char) != ' ');
                }
            }
        }
    }
    r
}

} // verus!
