use crate::object::Buildin;
use crate::object::ChaiObject;
use crate::object::ValM;
use crate::object::duplicate_vals;
use crate::object::lemma_vals_model_index;
use crate::object::lemma_vals_model_len;
use crate::object::vals_model;
use vstd::prelude::*;
use vstd::string::StrSliceExecFns;
use vstd::string::StringExecFns;

verus! {

broadcast use lemma_vals_model_len, lemma_vals_model_index;

/// The decimal digit characters.
pub open spec fn digit_char(d: nat) -> char {
    if d == 0 {
        '0'
    } else if d == 1 {
        '1'
    } else if d == 2 {
        '2'
    } else if d == 3 {
        '3'
    } else if d == 4 {
        '4'
    } else if d == 5 {
        '5'
    } else if d == 6 {
        '6'
    } else if d == 7 {
        '7'
    } else if d == 8 {
        '8'
    } else {
        '9'
    }
}

/// The decimal digits of a natural number, most significant first.
pub open spec fn dec_digits(n: nat) -> Seq<char>
    decreases n,
{
    if n < 10 {
        seq![digit_char(n)]
    } else {
        dec_digits(n / 10).push(digit_char(n % 10))
    }
}

/// The decimal rendering of a 32-bit integer, with a leading minus sign
/// when negative.
pub open spec fn dec_i32(v: i32) -> Seq<char> {
    if v < 0 {
        seq!['-'] + dec_digits((-(v as int)) as nat)
    } else {
        dec_digits(v as nat)
    }
}

/// A length squeezed into a 32-bit integer the way an `as` cast does it:
/// the low 32 bits, reinterpreted as two's complement.
pub open spec fn wrap_to_i32(n: nat) -> i32 {
    let m = (n as int) % 0x1_0000_0000;
    if m >= 0x8000_0000 {
        (m - 0x1_0000_0000) as i32
    } else {
        m as i32
    }
}

/// The byte length of the UTF-8 encoding of a string, as the machine
/// reports it.
pub open spec fn str_byte_len(s: Seq<char>) -> usize {
    vstd::utf8::encode_utf8(s).len() as usize
}

/// The type tag a value shows in diagnostics.
pub open spec fn display_m(v: ValM) -> Seq<char> {
    match v {
        ValM::Integer(_) => "Integer"@,
        ValM::Boolean(_) => "Boolean"@,
        ValM::String(_) => "String"@,
        ValM::Null => "Null"@,
        _ => "{ Object }"@,
    }
}

/// Serialization of a value for `print`: integers as decimal digits,
/// booleans as `true`/`false`, strings as themselves, arrays as `[`,
/// comma-joined elements, `]`; every other value by its type tag.
pub open spec fn serialize_m(v: ValM) -> Seq<char>
    decreases v,
{
    match v {
        ValM::Integer(i) => dec_i32(i),
        ValM::Boolean(b) => if b {
            "true"@
        } else {
            "false"@
        },
        ValM::String(s) => s,
        ValM::Array(elems) => seq!['['] + join_comma_m(elems) + seq![']'],
        _ => display_m(v),
    }
}

/// Array elements serialized and joined with a comma, no spaces.
pub open spec fn join_comma_m(vs: Seq<ValM>) -> Seq<char>
    decreases vs,
{
    if vs.len() == 0 {
        Seq::empty()
    } else if vs.len() == 1 {
        serialize_m(vs.last())
    } else {
        join_comma_m(vs.drop_last()) + seq![','] + serialize_m(vs.last())
    }
}

/// `print` arguments serialized and joined with a single space.
pub open spec fn join_space_m(vs: Seq<ValM>) -> Seq<char>
    decreases vs,
{
    if vs.len() == 0 {
        Seq::empty()
    } else if vs.len() == 1 {
        serialize_m(vs.last())
    } else {
        join_space_m(vs.drop_last()) + seq![' '] + serialize_m(vs.last())
    }
}

/// What `len` returns: the byte length of a string or the element count of
/// an array, and an error for any other argument or arity.
pub open spec fn builtin_len_m(args: Seq<ValM>) -> ValM {
    if args.len() != 1 {
        ValM::Error("Expected 1 argument, found "@ + dec_digits(args.len()))
    } else {
        match args[0] {
            ValM::String(s) => ValM::Integer(wrap_to_i32(str_byte_len(s) as nat)),
            ValM::Array(elems) => ValM::Integer(wrap_to_i32(elems.len())),
            _ => ValM::Error("Expected String, found "@ + display_m(args[0])),
        }
    }
}

/// What `push` returns: a new array with the value appended; the original
/// array is untouched.
pub open spec fn builtin_push_m(args: Seq<ValM>) -> ValM {
    if args.len() != 2 {
        ValM::Error("Expected 2 argument, found "@ + dec_digits(args.len()))
    } else {
        match args[0] {
            ValM::Array(elems) => ValM::Array(elems.push(args[1])),
            _ => ValM::Error("First argument should be an array"@),
        }
    }
}

/// What `print` returns: the `Print` sentinel carrying its arguments
/// serialized and joined with single spaces; `Null` for no arguments.
pub open spec fn builtin_print_m(args: Seq<ValM>) -> ValM {
    if args.len() == 0 {
        ValM::Null
    } else {
        ValM::Print(join_space_m(args))
    }
}

/// What a built-in call returns.
pub open spec fn buildin_apply_m(b: Buildin, args: Seq<ValM>) -> ValM {
    match b {
        Buildin::Len => builtin_len_m(args),
        Buildin::Push => builtin_push_m(args),
        Buildin::Print => builtin_print_m(args),
    }
}

/// The fixed name-to-function table of the built-in library.
pub open spec fn builtin_lookup(name: Seq<char>) -> Option<Buildin> {
    if name == "len"@ {
        Some(Buildin::Len)
    } else if name == "push"@ {
        Some(Buildin::Push)
    } else if name == "print"@ {
        Some(Buildin::Print)
    } else {
        None
    }
}

/// One decimal digit as a string.
fn digit_to_string(d: u64) -> (r: String)
    requires
        d < 10,
    ensures
        r@ == seq![digit_char(d as nat)],
{
    proof {
        reveal_strlit("0");
        reveal_strlit("1");
        reveal_strlit("2");
        reveal_strlit("3");
        reveal_strlit("4");
        reveal_strlit("5");
        reveal_strlit("6");
        reveal_strlit("7");
        reveal_strlit("8");
        reveal_strlit("9");
    }
    let r = if d == 0 {
        "0".to_owned()
    } else if d == 1 {
        "1".to_owned()
    } else if d == 2 {
        "2".to_owned()
    } else if d == 3 {
        "3".to_owned()
    } else if d == 4 {
        "4".to_owned()
    } else if d == 5 {
        "5".to_owned()
    } else if d == 6 {
        "6".to_owned()
    } else if d == 7 {
        "7".to_owned()
    } else if d == 8 {
        "8".to_owned()
    } else {
        "9".to_owned()
    };
    proof {
        assert(r@ =~= seq![digit_char(d as nat)]);
    }
    r
}

/// The decimal rendering of an unsigned number.
pub fn u64_to_string(n: u64) -> (r: String)
    ensures
        r@ == dec_digits(n as nat),
    decreases n,
{
    if n < 10 {
        digit_to_string(n)
    } else {
        let mut head = u64_to_string(n / 10);
        let tail = digit_to_string(n % 10);
        head.append(tail.as_str());
        proof {
            assert(head@ =~= dec_digits(n as nat));
        }
        head
    }
}

/// The decimal rendering of a 32-bit integer.
pub fn i32_to_string(v: i32) -> (r: String)
    ensures
        r@ == dec_i32(v),
{
    if v < 0 {
        let magnitude: u64 = (-(v as i64)) as u64;
        let mut r = "-".to_owned();
        let digits = u64_to_string(magnitude);
        r.append(digits.as_str());
        proof {
            reveal_strlit("-");
            assert(r@ =~= dec_i32(v));
        }
        r
    } else {
        u64_to_string(v as u64)
    }
}

/// A length as an `i32`, wrapping the way an `as` cast does.
fn len_to_i32(n: usize) -> (r: i32)
    ensures
        r == wrap_to_i32(n as nat),
{
    let m: u64 = (n as u64) % 0x1_0000_0000;
    if m >= 0x8000_0000 {
        let v: i64 = (m as i64) - 0x1_0000_0000i64;
        v as i32
    } else {
        m as i32
    }
}

/// The type tag of a value, for diagnostics.
pub fn display_chai_object(object: &ChaiObject) -> (r: String)
    ensures
        r@ == display_m(object.model()),
{
    match object {
        ChaiObject::Integer(_) => "Integer".to_owned(),
        ChaiObject::Boolean(_) => "Boolean".to_owned(),
        ChaiObject::String(_) => "String".to_owned(),
        ChaiObject::Null => "Null".to_owned(),
        _ => "{ Object }".to_owned(),
    }
}

/// Array elements serialized and joined with commas.
fn serialize_join(arr: &Vec<ChaiObject>) -> (r: String)
    ensures
        r@ == join_comma_m(vals_model(arr@)),
    decreases arr@,
{
    let mut out = String::new();
    let n = arr.len();
    let mut i: usize = 0;
    while i < n
        invariant
            n == arr.len(),
            i <= n,
            out@ == join_comma_m(vals_model(arr@).take(i as int)),
        decreases n - i,
    {
        if i > 0 {
            out.append(",");
        }
        let piece = serialize_chai_object(&arr[i]);
        out.append(piece.as_str());
        proof {
            reveal_strlit(",");
            let vs = vals_model(arr@);
            assert(vs.take(i + 1).drop_last() =~= vs.take(i as int));
            assert(vs.take(i + 1).last() == vs[i as int]);
            assert(out@ =~= join_comma_m(vs.take(i + 1)));
        }
        i = i + 1;
    }
    proof {
        assert(vals_model(arr@).take(n as int) =~= vals_model(arr@));
    }
    out
}

/// Serialize a value as `print` shows it.
pub fn serialize_chai_object(object: &ChaiObject) -> (r: String)
    ensures
        r@ == serialize_m(object.model()),
    decreases *object,
{
    match object {
        ChaiObject::Integer(i) => i32_to_string(*i),
        ChaiObject::Boolean(b) => {
            if *b {
                "true".to_owned()
            } else {
                "false".to_owned()
            }
        },
        ChaiObject::String(s) => s.clone(),
        ChaiObject::Array(arr) => {
            let mut out = "[".to_owned();
            let joined = serialize_join(arr);
            out.append(joined.as_str());
            out.append("]");
            proof {
                reveal_strlit("[");
                reveal_strlit("]");
                assert(out@ =~= serialize_m(object.model()));
            }
            out
        },
        _ => display_chai_object(object),
    }
}

/// The `len` built-in: the byte length of a string or the element count of
/// an array; exactly one argument.
pub fn len(object: Vec<ChaiObject>) -> (r: ChaiObject)
    ensures
        r.model() == builtin_len_m(vals_model(object@)),
{
    proof {
        lemma_vals_model_len(object@);
        if object@.len() > 0 {
            lemma_vals_model_index(object@, 0);
        }
    }
    if object.len() != 1 {
        let mut msg = "Expected 1 argument, found ".to_owned();
        let count = u64_to_string(object.len() as u64);
        msg.append(count.as_str());
        return ChaiObject::Error(msg);
    }
    match &object[0] {
        ChaiObject::String(s) => {
            let byte_len = s.as_str().len();
            proof {
                assert(byte_len == str_byte_len(s@));
            }
            ChaiObject::Integer(len_to_i32(byte_len))
        },
        ChaiObject::Array(arr) => {
            proof {
                assert(object@[0].model() == ValM::Array(vals_model(arr@)));
                assert(vals_model(arr@).len() == arr@.len());
            }
            ChaiObject::Integer(len_to_i32(arr.len()))
        },
        _ => {
            let mut msg = "Expected String, found ".to_owned();
            let shown = display_chai_object(&object[0]);
            msg.append(shown.as_str());
            ChaiObject::Error(msg)
        },
    }
}

/// The `push` built-in: a new array with the value appended; copy-on-write,
/// the argument array is untouched.
pub fn push(object: Vec<ChaiObject>) -> (r: ChaiObject)
    ensures
        r.model() == builtin_push_m(vals_model(object@)),
{
    proof {
        lemma_vals_model_len(object@);
        if object@.len() > 0 {
            lemma_vals_model_index(object@, 0);
        }
        if object@.len() > 1 {
            lemma_vals_model_index(object@, 1);
        }
    }
    if object.len() != 2 {
        let mut msg = "Expected 2 argument, found ".to_owned();
        let count = u64_to_string(object.len() as u64);
        msg.append(count.as_str());
        return ChaiObject::Error(msg);
    }
    match &object[0] {
        ChaiObject::Array(arr) => {
            let mut out = duplicate_vals(arr);
            out.push(object[1].duplicate());
            proof {
                assert(vals_model(out@) =~= vals_model(arr@).push(object[1].model()));
            }
            ChaiObject::Array(out)
        },
        _ => ChaiObject::Error("First argument should be an array".to_owned()),
    }
}

/// The `print` built-in: the `Print` sentinel carrying the arguments
/// serialized and joined with single spaces; `Null` for no arguments.
pub fn print(object: Vec<ChaiObject>) -> (r: ChaiObject)
    ensures
        r.model() == builtin_print_m(vals_model(object@)),
{
    let n = object.len();
    if n == 0 {
        return ChaiObject::Null;
    }
    let mut out = String::new();
    let mut i: usize = 0;
    while i < n
        invariant
            n == object.len(),
            i <= n,
            out@ == join_space_m(vals_model(object@).take(i as int)),
        decreases n - i,
    {
        if i > 0 {
            out.append(" ");
        }
        let piece = serialize_chai_object(&object[i]);
        out.append(piece.as_str());
        proof {
            reveal_strlit(" ");
            let vs = vals_model(object@);
            assert(vs.take(i + 1).drop_last() =~= vs.take(i as int));
            assert(vs.take(i + 1).last() == vs[i as int]);
            assert(out@ =~= join_space_m(vs.take(i + 1)));
        }
        i = i + 1;
    }
    proof {
        assert(vals_model(object@).take(n as int) =~= vals_model(object@));
    }
    ChaiObject::Print(out)
}

/// The built-in library: a fixed mapping from name to built-in function,
/// consulted when identifier lookup in the environment chain fails.
#[derive(Debug, Clone, PartialEq)]
pub struct Std {}

impl Std {
    /// The table with the three built-ins loaded.
    pub fn load() -> (r: Self) {
        Std {  }
    }

    /// Look a name up in the table.
    pub fn get(&self, name: &str) -> (r: Option<Buildin>)
        ensures
            r == builtin_lookup(name@),
    {
        let key = name.to_owned();
        if key == "len".to_owned() {
            Some(Buildin::Len)
        } else if key == "push".to_owned() {
            Some(Buildin::Push)
        } else if key == "print".to_owned() {
            Some(Buildin::Print)
        } else {
            None
        }
    }
}

/// Dispatch a built-in call on its handle.
pub fn apply_buildin(b: Buildin, arguments: Vec<ChaiObject>) -> (r: ChaiObject)
    ensures
        r.model() == buildin_apply_m(b, vals_model(arguments@)),
{
    match b {
        Buildin::Len => len(arguments),
        Buildin::Push => push(arguments),
        Buildin::Print => print(arguments),
    }
}

} // verus!
