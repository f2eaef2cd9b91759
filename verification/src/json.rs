use vstd::prelude::*;

use vstd::string::StrSliceExecFns;

verus! {

/// A structured text value: the tree a scene-description document parses
/// into. Numbers keep their decimal text; the schema layer interprets them.
#[derive(Debug)]
pub enum JsonValue {
    Null,
    Bool(bool),
    Num(String),
    Str(String),
    Arr(Vec<JsonValue>),
    Obj(Vec<(String, JsonValue)>),
}

#[verifier::external_type_specification]
#[verifier::external_body]
pub struct ExValue(serde_json::Value);

/// The value tree a text denotes, when it is a well-formed document. What
/// serde_json accepts takes pages to state, but it is a function of the
/// text alone (objects come back with their keys in order), so the result
/// bears a name and the schema layer is verified for every tree.
pub uninterp spec fn json_of(text: Seq<char>) -> Option<JsonValue>;

/// The document text of a value tree: a function of the value alone.
pub uninterp spec fn text_of(v: JsonValue) -> Option<String>;

/// Relies on the shape of serde_json::Value: each variant is carried over
/// one for one; a number becomes its decimal text (serde_json's Display),
/// an object its entries in order.
#[verifier::external_body]
fn lift_value(v: &serde_json::Value) -> (r: JsonValue)
{
    match v {
        serde_json::Value::Null => JsonValue::Null,
        serde_json::Value::Bool(b) => JsonValue::Bool(*b),
        serde_json::Value::Number(n) => JsonValue::Num(n.to_string()),
        serde_json::Value::String(s) => JsonValue::Str(s.clone()),
        serde_json::Value::Array(a) => JsonValue::Arr(a.iter().map(lift_value).collect()),
        serde_json::Value::Object(o) => JsonValue::Obj(
            o.iter().map(|e| (e.0.clone(), lift_value(e.1))).collect(),
        ),
    }
}

/// Relies on the constructors of serde_json::Value: the inverse carry-over
/// of `lift_value`. A number text that serde_json does not accept becomes
/// null (the schema layer never writes one).
#[verifier::external_body]
fn lower_value(v: &JsonValue) -> (r: serde_json::Value)
{
    match v {
        JsonValue::Null => serde_json::Value::Null,
        JsonValue::Bool(b) => serde_json::Value::Bool(*b),
        JsonValue::Num(n) => match n.parse::<serde_json::Number>() {
            Ok(num) => serde_json::Value::Number(num),
            Err(_) => serde_json::Value::Null,
        },
        JsonValue::Str(s) => serde_json::Value::String(s.clone()),
        JsonValue::Arr(a) => serde_json::Value::Array(a.iter().map(lower_value).collect()),
        JsonValue::Obj(o) => serde_json::Value::Object(
            o.iter().map(|e| (e.0.clone(), lower_value(&e.1))).collect(),
        ),
    }
}

/// Parse a scene-description text into the library's value tree, or report
/// that the text is not a well-formed document. Relies on
/// serde_json::from_str; the result depends on the text alone and is named
/// `json_of`.
#[verifier::external_body]
pub fn parse_text(text: &str) -> (r: Option<JsonValue>)
    ensures
        r == json_of(text@),
{
    match serde_json::from_str::<serde_json::Value>(text) {
        Ok(v) => Some(lift_value(&v)),
        Err(_) => None,
    }
}

/// Render a value tree as document text. Relies on serde_json::to_string;
/// the result depends on the value alone and is named `text_of`.
#[verifier::external_body]
pub fn render_text(v: &JsonValue) -> (r: Option<String>)
    ensures
        r == text_of(*v),
{
    serde_json::to_string(&lower_value(v)).ok()
}

/// The first value bound to `key` among an object's fields.
pub open spec fn lookup_spec(fields: Seq<(String, JsonValue)>, key: Seq<char>) -> Option<
    JsonValue,
>
    decreases fields.len(),
{
    if fields.len() == 0 {
        None
    } else if fields[0].0@ == key {
        Some(fields[0].1)
    } else {
        lookup_spec(fields.drop_first(), key)
    }
}

/// Deep equality of two value trees: same shape, same texts, same entries.
pub open spec fn json_eq(a: JsonValue, b: JsonValue) -> bool
    decreases a,
{
    match (a, b) {
        (JsonValue::Null, JsonValue::Null) => true,
        (JsonValue::Bool(x), JsonValue::Bool(y)) => x == y,
        (JsonValue::Num(x), JsonValue::Num(y)) => x@ == y@,
        (JsonValue::Str(x), JsonValue::Str(y)) => x@ == y@,
        (JsonValue::Arr(x), JsonValue::Arr(y)) => x@.len() == y@.len() && (forall|i: int|
            0 <= i < x@.len() ==> json_eq(#[trigger] x@[i], y@[i])),
        (JsonValue::Obj(x), JsonValue::Obj(y)) => x@.len() == y@.len() && (forall|i: int|
            0 <= i < x@.len() ==> (#[trigger] x@[i]).0@ == y@[i].0@ && json_eq(x@[i].1, y@[i].1)),
        _ => false,
    }
}

/// A deep copy of a value tree.
pub fn duplicate(v: &JsonValue) -> (r: JsonValue)
    ensures
        json_eq(*v, r),
    decreases *v,
{
    match v {
        JsonValue::Null => JsonValue::Null,
        JsonValue::Bool(b) => JsonValue::Bool(*b),
        JsonValue::Num(s) => JsonValue::Num(s.clone()),
        JsonValue::Str(s) => JsonValue::Str(s.clone()),
        JsonValue::Arr(a) => {
            let mut out: Vec<JsonValue> = Vec::new();
            let mut i: usize = 0;
            while i < a.len()
                invariant
                    i <= a@.len(),
                    decreases_to!(*v => *a),
                    out@.len() == i as int,
                    forall|k: int| 0 <= k < i ==> json_eq(#[trigger] a@[k], out@[k]),
                decreases a@.len() - i,
            {
                proof {
                    assert(decreases_to!(*a => a@));
                    assert(decreases_to!(a@ => a@[i as int]));
                }
                out.push(duplicate(&a[i]));
                i += 1;
            }
            JsonValue::Arr(out)
        },
        JsonValue::Obj(a) => {
            let mut out: Vec<(String, JsonValue)> = Vec::new();
            let mut i: usize = 0;
            while i < a.len()
                invariant
                    i <= a@.len(),
                    decreases_to!(*v => *a),
                    out@.len() == i as int,
                    forall|k: int|
                        0 <= k < i ==> (#[trigger] a@[k]).0@ == out@[k].0@ && json_eq(
                            a@[k].1,
                            out@[k].1,
                        ),
                decreases a@.len() - i,
            {
                proof {
                    assert(decreases_to!(*a => a@));
                    assert(decreases_to!(a@ => a@[i as int]));
                    assert(decreases_to!(a@[i as int] => a@[i as int].1));
                }
                let copy = duplicate(&a[i].1);
                out.push((a[i].0.clone(), copy));
                i += 1;
            }
            JsonValue::Obj(out)
        },
    }
}

/// Look a field up by name among an object's entries.
pub fn get_field<'a>(fields: &'a Vec<(String, JsonValue)>, key: &str) -> (r: Option<
    &'a JsonValue,
>)
    ensures
        match r {
            Some(v) => lookup_spec(fields@, key@) == Some(*v),
            None => lookup_spec(fields@, key@) is None,
        },
{
    let owned = key.to_owned();
    proof {
        assert(fields@.subrange(0, fields@.len() as int) =~= fields@);
    }
    let mut i: usize = 0;
    while i < fields.len()
        invariant
            i <= fields@.len(),
            owned@ == key@,
            lookup_spec(fields@, key@) == lookup_spec(fields@.subrange(i as int, fields@.len() as int), key@),
        decreases fields@.len() - i,
    {
        proof {
            let rest = fields@.subrange(i as int, fields@.len() as int);
            assert(rest[0] == fields@[i as int]);
            assert(rest.drop_first() =~= fields@.subrange(i as int + 1, fields@.len() as int));
        }
        if fields[i].0 == owned {
            return Some(&fields[i].1);
        }
        i += 1;
    }
    proof {
        assert(fields@.subrange(fields@.len() as int, fields@.len() as int).len() == 0);
    }
    None
}

/// A decimal digit.
pub open spec fn is_digit(c: char) -> bool {
    48 <= c as u32 <= 57
}

/// The number a digit run denotes, and where it would overflow the cap: the
/// scan of a number text, position by position. `acc` is the value read so
/// far in fixed-point steps of the integer part.
pub open spec fn num_scan_int(s: Seq<char>, i: int, acc: int, seen: bool) -> Option<int>
    decreases s.len() - i,
{
    if i < 0 || i > s.len() {
        None
    } else if i == s.len() {
        if seen && acc <= 9_000_000_000 {
            Some(acc * (crate::math::fixed::SCALE as int))
        } else {
            None
        }
    } else if is_digit(s[i]) {
        if acc > 9_000_000_000 {
            None
        } else {
            num_scan_int(s, i + 1, acc * 10 + (s[i] as u32 - 48), true)
        }
    } else if s[i] as u32 == 46 && seen && acc <= 9_000_000_000 {
        num_scan_frac(s, i + 1, acc, 0, 0)
    } else {
        None
    }
}

/// The fractional continuation of the scan: `frac` holds the first `k`
/// fraction digits; digits beyond the ninth are cut off.
pub open spec fn num_scan_frac(s: Seq<char>, i: int, acc: int, frac: int, k: int) -> Option<int>
    decreases s.len() - i,
{
    if i < 0 || i > s.len() {
        None
    } else if i == s.len() {
        if k > 0 {
            Some(acc * (crate::math::fixed::SCALE as int) + frac * pow10(9 - k))
        } else {
            None
        }
    } else if is_digit(s[i]) {
        if k >= 9 {
            num_scan_frac(s, i + 1, acc, frac, k)
        } else {
            num_scan_frac(s, i + 1, acc, frac * 10 + (s[i] as u32 - 48), k + 1)
        }
    } else {
        None
    }
}

/// Powers of ten up to one scale.
pub open spec fn pow10(k: int) -> int
    decreases k,
{
    if k <= 0 {
        1
    } else {
        10 * pow10(k - 1)
    }
}

/// The fixed-point value a number text denotes: an optional leading minus,
/// an integer part, an optional fraction; fraction digits beyond the scale
/// are cut off, and scientific notation is not accepted.
pub open spec fn num_val(s: Seq<char>) -> Option<int> {
    if s.len() > 0 && s[0] as u32 == 45 {
        match num_scan_int(s, 1, 0, false) {
            Some(v) => Some(-v),
            None => None,
        }
    } else {
        num_scan_int(s, 0, 0, false)
    }
}

/// Parse a number text into fixed-point steps.
pub fn parse_nano(text: &str) -> (r: Option<i64>)
    ensures
        match r {
            Some(v) => num_val(text@) == Some(v as int),
            None => num_val(text@) is None,
        },
{
    let n = text.unicode_len();
    let ghost s = text@;
    let mut i: usize = 0;
    let neg = n > 0 && text.get_char(0) as u32 == 45;
    if neg {
        i = 1;
    }
    let mut acc: i64 = 0;
    let mut seen = false;
    while i < n && text.get_char(i) as u32 >= 48 && text.get_char(i) as u32 <= 57
        invariant
            0 <= i <= s.len(),
            n as int == s.len(),
            s == text@,
            0 <= acc <= 99_000_000_009,
            num_val(s) == (if neg {
                match num_scan_int(s, i as int, acc as int, seen) {
                    Some(v) => Some(-v),
                    None => None::<int>,
                }
            } else {
                num_scan_int(s, i as int, acc as int, seen)
            }),
        decreases s.len() - i,
    {
        if acc > 9_000_000_000 {
            return None;
        }
        acc = acc * 10 + ((text.get_char(i) as u32 - 48) as i64);
        seen = true;
        i += 1;
    }
    if i < n && text.get_char(i) as u32 == 46 && seen {
        if acc > 9_000_000_000 {
            return None;
        }
        i += 1;
        let mut frac: i64 = 0;
        let mut k: u32 = 0;
        while i < n && text.get_char(i) as u32 >= 48 && text.get_char(i) as u32 <= 57
            invariant
                0 <= i <= s.len(),
                n as int == s.len(),
                s == text@,
                0 <= acc <= 9_000_000_000,
                0 <= k <= 9,
                0 <= frac < pow10(k as int),
                pow10(k as int) <= 1_000_000_000,
                num_val(s) == (if neg {
                    match num_scan_frac(s, i as int, acc as int, frac as int, k as int) {
                        Some(v) => Some(-v),
                        None => None::<int>,
                    }
                } else {
                    num_scan_frac(s, i as int, acc as int, frac as int, k as int)
                }),
            decreases s.len() - i,
        {
            if k < 9 {
                proof {
                    lemma_pow10_values();
                    lemma_pow10_bounds(k as int);
                    lemma_pow10_bounds(k as int + 1);
                    assert(pow10(k as int + 1) == 10 * pow10(k as int));
                }
                frac = frac * 10 + ((text.get_char(i) as u32 - 48) as i64);
                k += 1;
            }
            i += 1;
        }
        if i < n || k == 0 {
            return None;
        }
        let scale_rest = pow10_exec(9 - k);
        proof {
            lemma_pow10_bounds(k as int);
            assert((acc as int) * (crate::math::fixed::SCALE as int)
                <= 9_000_000_000_000_000_000) by (nonlinear_arith)
                requires
                    0 <= acc <= 9_000_000_000,
            ;
            assert(0 <= (frac as int) * pow10(9 - k as int) < 1_000_000_000)
                by (nonlinear_arith)
                requires
                    0 <= frac,
                    0 < pow10(9 - k as int),
                    frac < pow10(k as int),
                    pow10(k as int) * pow10(9 - k as int) == 1_000_000_000,
            ;
            assert((frac as int) * (scale_rest as int) < 1_000_000_000);
        }
        let mag = acc * crate::math::fixed::SCALE + frac * scale_rest;
        if neg {
            return Some(-mag);
        }
        return Some(mag);
    }
    if i < n || !seen {
        return None;
    }
    if acc > 9_000_000_000 {
        return None;
    }
    proof {
        assert((acc as int) * (crate::math::fixed::SCALE as int) <= 9_000_000_000_000_000_000)
            by (nonlinear_arith)
            requires
                0 <= acc <= 9_000_000_000,
        ;
    }
    let mag = acc * crate::math::fixed::SCALE;
    if neg {
        Some(-mag)
    } else {
        Some(mag)
    }
}

/// The first ten powers of ten, by value.
pub proof fn lemma_pow10_values()
    ensures
        pow10(0) == 1,
        pow10(1) == 10,
        pow10(2) == 100,
        pow10(3) == 1000,
        pow10(4) == 10000,
        pow10(5) == 100000,
        pow10(6) == 1000000,
        pow10(7) == 10000000,
        pow10(8) == 100000000,
        pow10(9) == 1_000_000_000,
{
    assert(pow10(0) == 1);
    assert(pow10(1) == 10 * pow10(0));
    assert(pow10(2) == 10 * pow10(1));
    assert(pow10(3) == 10 * pow10(2));
    assert(pow10(4) == 10 * pow10(3));
    assert(pow10(5) == 10 * pow10(4));
    assert(pow10(6) == 10 * pow10(5));
    assert(pow10(7) == 10 * pow10(6));
    assert(pow10(8) == 10 * pow10(7));
    assert(pow10(9) == 10 * pow10(8));
}

/// Powers of ten up to the ninth are positive and at most one scale, and
/// complementary powers multiply back to one scale.
pub proof fn lemma_pow10_bounds(k: int)
    requires
        0 <= k <= 9,
    ensures
        1 <= pow10(k) <= 1_000_000_000,
        pow10(k) * pow10(9 - k) == 1_000_000_000,
{
    lemma_pow10_values();
    if k == 0 {
        assert(pow10(0) * pow10(9) == 1_000_000_000) by (nonlinear_arith)
            requires
                pow10(0) == 1,
                pow10(9) == 1_000_000_000,
        ;
    } else if k == 1 {
        assert(pow10(1) * pow10(8) == 1_000_000_000) by (nonlinear_arith)
            requires
                pow10(1) == 10,
                pow10(8) == 100000000,
        ;
    } else if k == 2 {
        assert(pow10(2) * pow10(7) == 1_000_000_000) by (nonlinear_arith)
            requires
                pow10(2) == 100,
                pow10(7) == 10000000,
        ;
    } else if k == 3 {
        assert(pow10(3) * pow10(6) == 1_000_000_000) by (nonlinear_arith)
            requires
                pow10(3) == 1000,
                pow10(6) == 1000000,
        ;
    } else if k == 4 {
        assert(pow10(4) * pow10(5) == 1_000_000_000) by (nonlinear_arith)
            requires
                pow10(4) == 10000,
                pow10(5) == 100000,
        ;
    } else if k == 5 {
        assert(pow10(5) * pow10(4) == 1_000_000_000) by (nonlinear_arith)
            requires
                pow10(5) == 100000,
                pow10(4) == 10000,
        ;
    } else if k == 6 {
        assert(pow10(6) * pow10(3) == 1_000_000_000) by (nonlinear_arith)
            requires
                pow10(6) == 1000000,
                pow10(3) == 1000,
        ;
    } else if k == 7 {
        assert(pow10(7) * pow10(2) == 1_000_000_000) by (nonlinear_arith)
            requires
                pow10(7) == 10000000,
                pow10(2) == 100,
        ;
    } else if k == 8 {
        assert(pow10(8) * pow10(1) == 1_000_000_000) by (nonlinear_arith)
            requires
                pow10(8) == 100000000,
                pow10(1) == 10,
        ;
    } else {
        assert(pow10(9) * pow10(0) == 1_000_000_000) by (nonlinear_arith)
            requires
                pow10(9) == 1_000_000_000,
                pow10(0) == 1,
        ;
    }
}

/// Powers of ten, executable.
fn pow10_exec(k: u32) -> (r: i64)
    requires
        k <= 9,
    ensures
        r as int == pow10(k as int),
        1 <= r <= 1_000_000_000,
{
    let mut r: i64 = 1;
    let mut i: u32 = 0;
    while i < k
        invariant
            i <= k <= 9,
            r as int == pow10(i as int),
            1 <= r <= 1_000_000_000,
        decreases k - i,
    {
        proof {
            lemma_pow10_values();
            lemma_pow10_bounds(i as int + 1);
            assert(pow10(i as int + 1) == 10 * pow10(i as int));
        }
        r = r * 10;
        i += 1;
    }
    r
}

/// The integer a number text denotes when it is a plain nonnegative integer
/// in fixed-point steps of one: `num_val` recovers it scaled.
pub open spec fn index_val(s: Seq<char>) -> Option<int> {
    match num_val(s) {
        Some(v) => {
            if v >= 0 && v % (crate::math::fixed::SCALE as int) == 0 && v / (
            crate::math::fixed::SCALE as int) <= 0xffff_ffff {
                Some(v / (crate::math::fixed::SCALE as int))
            } else {
                None
            }
        },
        None => None,
    }
}

/// Parse a number text as a nonnegative whole index.
pub fn parse_index(text: &str) -> (r: Option<usize>)
    ensures
        match r {
            Some(v) => index_val(text@) == Some(v as int),
            None => index_val(text@) is None,
        },
{
    let nano = match parse_nano(text) {
        Some(v) => v,
        None => {
            return None;
        },
    };
    if nano < 0 {
        return None;
    }
    let whole = nano / crate::math::fixed::SCALE;
    let rem = nano % crate::math::fixed::SCALE;
    if rem != 0 {
        return None;
    }
    if whole > 0xffff_ffff {
        return None;
    }
    Some(whole as usize)
}

} // verus!
