//! Built-in functions that work on values and heap memory alone: `printf`
//! formatting and reading C strings from the heap.
//!
//! `printf` supports the conversions `%d`, `%u`, `%x`, `%c`, `%s` and `%%`,
//! and the escapes `\n`, `\t`, `\r`, `\\` and `\"` written out in the
//! format text.
use vstd::prelude::*;
use vstd::utf8::{decode_utf8, valid_utf8};
use crate::interpreter::errors::RuntimeError;
use crate::interpreter::heap_serial::{freed_address, map_heap_error};
use crate::memory::heap::{read_byte_result, BlockView, Heap};
use crate::memory::value::{value_text, Value};
use crate::parser::ast::SourceLocation;
use crate::text::{
    char_from_scalar, chars_of, decimal_digits, hex_digits, int_text, push_char, push_decimal,
    push_hex, push_int,
};

verus! {

/// The most bytes a C string read from the heap may have before its
/// terminating zero.
pub const MAX_C_STRING_LEN: usize = 10000;

/// Why a C string could not be read from the heap.
pub enum StringProblem {
    /// A heap read failed with this message
    Heap(Seq<char>),
    /// No zero byte among the first bytes allowed
    TooLong,
    /// The bytes are not valid UTF-8
    NotUtf8,
}

/// The byte at an address, where no block holds an address past the end of
/// the address space.
pub open spec fn byte_at(m: Map<u64, BlockView>, a: int) -> Result<u8, Seq<char>> {
    if 0 <= a <= u64::MAX {
        read_byte_result(m, a as u64)
    } else {
        Err(Seq::empty())
    }
}

/// The bytes of the C string at `addr`, from its `k`-th byte up to the
/// terminating zero; it fails when a byte cannot be read, or when the
/// string has more than [`MAX_C_STRING_LEN`] bytes.
pub open spec fn scan_c_string(m: Map<u64, BlockView>, addr: u64, k: nat) -> Result<
    Seq<u8>,
    StringProblem,
>
    decreases MAX_C_STRING_LEN - k,
{
    match byte_at(m, addr + k) {
        Err(e) => Err(StringProblem::Heap(e)),
        Ok(b) => if b == 0 {
            Ok(Seq::empty())
        } else if k >= MAX_C_STRING_LEN {
            Err(StringProblem::TooLong)
        } else {
            match scan_c_string(m, addr, k + 1) {
                Ok(rest) => Ok(seq![b] + rest),
                Err(p) => Err(p),
            }
        },
    }
}

/// The text of the C string at `addr`: its bytes decoded as UTF-8.
pub open spec fn c_string_text(m: Map<u64, BlockView>, addr: u64) -> Result<Seq<char>, StringProblem> {
    match scan_c_string(m, addr, 0) {
        Ok(bs) => if valid_utf8(bs) {
            Ok(decode_utf8(bs))
        } else {
            Err(StringProblem::NotUtf8)
        },
        Err(p) => Err(p),
    }
}

/// Whether a runtime error stands for a failed heap access with this message.
pub open spec fn is_heap_error(r: RuntimeError, msg: Seq<char>, location: SourceLocation) -> bool {
    match freed_address(msg) {
        Some(a) => r == (RuntimeError::UseAfterFree { address: a, location }),
        None => r matches RuntimeError::InvalidMemoryOperation { message, location: l }
            && message@ == msg && l == location,
    }
}

/// Whether a runtime error stands for a failed string read.
pub open spec fn is_string_error(r: RuntimeError, p: StringProblem, location: SourceLocation) -> bool {
    match p {
        StringProblem::Heap(msg) => is_heap_error(r, msg, location),
        StringProblem::TooLong => r matches RuntimeError::InvalidString { message, location: l }
            && message@ == "String too long or missing null terminator"@ && l == location,
        StringProblem::NotUtf8 => r matches RuntimeError::InvalidString { message, location: l }
            && message@ == "Invalid UTF-8 in string"@ && l == location,
    }
}

/// std's `String::from_utf8`: the text the bytes encode when they are valid
/// UTF-8, and nothing otherwise.
#[verifier::external_body]
fn string_from_utf8(bytes: Vec<u8>) -> (r: Option<String>)
    ensures
        match r {
            Some(s) => valid_utf8(bytes@) && s@ == decode_utf8(bytes@),
            None => !valid_utf8(bytes@),
        },
{
    String::from_utf8(bytes).ok()
}

/// `p` put before the text of a result, an error kept as it is.
pub open spec fn prefixed<E>(p: Seq<char>, r: Result<Seq<char>, E>) -> Result<Seq<char>, E> {
    match r {
        Ok(s) => Ok(p + s),
        Err(e) => Err(e),
    }
}

/// `p` put before the bytes of a scan, a failure kept as it is.
pub open spec fn bytes_prefixed(p: Seq<u8>, r: Result<Seq<u8>, StringProblem>) -> Result<
    Seq<u8>,
    StringProblem,
> {
    match r {
        Ok(s) => Ok(p + s),
        Err(e) => Err(e),
    }
}

/// A successful read of a valid heap is of an address below the end of the
/// address space.
proof fn lemma_read_below_end(heap: &Heap, addr: u64)
    requires
        heap.wf(),
        read_byte_result(heap@, addr) is Ok,
    ensures
        addr < u64::MAX,
{
    heap.lemma_view_ok();
    let m = heap@;
    assert(exists|a: u64| #[trigger] m.contains_key(a) && crate::memory::heap::block_holds(a, m[a], addr));
    let a = choose|a: u64| #[trigger] m.contains_key(a) && crate::memory::heap::block_holds(a, m[a], addr);
    assert(a + m[a].size <= u64::MAX);
}

/// Read a NUL-terminated string from the heap, as UTF-8 text.
pub fn read_string_from_heap(heap: &Heap, addr: u64, location: SourceLocation) -> (r: Result<
    String,
    RuntimeError,
>)
    requires
        heap.wf(),
    ensures
        match c_string_text(heap@, addr) {
            Ok(t) => r matches Ok(s) && s@ == t,
            Err(p) => r matches Err(e) && is_string_error(e, p, location),
        },
{
    let mut bytes: Vec<u8> = Vec::new();
    let mut current_addr: u64 = addr;
    loop
        invariant
            heap.wf(),
            bytes@.len() <= MAX_C_STRING_LEN,
            current_addr == addr + bytes@.len(),
            scan_c_string(heap@, addr, 0) == bytes_prefixed(
                bytes@,
                scan_c_string(heap@, addr, bytes@.len()),
            ),
        ensures
            scan_c_string(heap@, addr, 0) == Ok::<Seq<u8>, StringProblem>(bytes@),
        decreases MAX_C_STRING_LEN - bytes@.len(),
    {
        let ghost k = bytes@.len();
        let ghost old_bytes = bytes@;
        assert(byte_at(heap@, addr + k) == read_byte_result(heap@, current_addr));
        let byte = match heap.read_byte(current_addr) {
            Ok(b) => b,
            Err(e) => {
                assert(scan_c_string(heap@, addr, k) == Err::<Seq<u8>, StringProblem>(
                    StringProblem::Heap(e@),
                ));
                return Err(map_heap_error(e, location));
            },
        };
        if byte == 0 {
            assert(scan_c_string(heap@, addr, k) == Ok::<Seq<u8>, StringProblem>(Seq::empty()));
            assert(bytes@ + Seq::<u8>::empty() =~= bytes@);
            break ;
        }
        proof {
            lemma_read_below_end(heap, current_addr);
        }
        bytes.push(byte);
        current_addr = current_addr + 1;
        if bytes.len() > MAX_C_STRING_LEN {
            assert(scan_c_string(heap@, addr, k) == Err::<Seq<u8>, StringProblem>(
                StringProblem::TooLong,
            ));
            return Err(
                RuntimeError::InvalidString {
                    message: String::from_str("String too long or missing null terminator"),
                    location,
                },
            );
        }
        proof {
            assert(scan_c_string(heap@, addr, k) == bytes_prefixed(
                seq![byte],
                scan_c_string(heap@, addr, k + 1),
            ));
            assert(bytes@ == old_bytes + seq![byte]);
            match scan_c_string(heap@, addr, k + 1) {
                Ok(rest) => {
                    assert(old_bytes + (seq![byte] + rest) =~= bytes@ + rest);
                },
                Err(_) => {},
            }
            assert(bytes@.len() == k + 1);
            assert(scan_c_string(heap@, addr, 0) == bytes_prefixed(
                bytes@,
                scan_c_string(heap@, addr, k + 1),
            ));
        }
    }
    match string_from_utf8(bytes) {
        Some(s) => Ok(s),
        None => Err(
            RuntimeError::InvalidString {
                message: String::from_str("Invalid UTF-8 in string"),
                location,
            },
        ),
    }
}

/// Why a `printf` call failed.
pub enum PrintfFailure {
    /// More conversions than arguments
    MissingArgument,
    /// An integer conversion given neither an int nor a char
    NotInt(char, Value),
    /// `%s` given something other than a pointer
    NotPointer(Value),
    /// `%s` whose string could not be read
    BadString(StringProblem),
    /// `%n`, which is not supported
    WriteCount,
    /// Any other conversion character
    Unsupported(char),
}

/// Whether a runtime error stands for a `printf` failure.
pub open spec fn is_printf_error(r: RuntimeError, f: PrintfFailure, location: SourceLocation) -> bool {
    match f {
        PrintfFailure::MissingArgument => r matches RuntimeError::InvalidPrintfFormat {
            message,
            location: l,
        } && message@ == "Not enough arguments for format string"@ && l == location,
        PrintfFailure::NotInt(c, v) => r matches RuntimeError::InvalidPrintfFormat {
            message,
            location: l,
        } && message@ == seq!['%', c] + " expects int, got "@ + value_text(v) && l == location,
        PrintfFailure::NotPointer(v) => r matches RuntimeError::InvalidPrintfFormat {
            message,
            location: l,
        } && message@ == "%s expects pointer, got "@ + value_text(v) && l == location,
        PrintfFailure::BadString(p) => is_string_error(r, p, location),
        PrintfFailure::WriteCount => r matches RuntimeError::UnsupportedOperation {
            message,
            location: l,
        } && message@ == "%n format specifier not yet implemented"@ && l == location,
        PrintfFailure::Unsupported(c) => r matches RuntimeError::InvalidPrintfFormat {
            message,
            location: l,
        } && message@ == "Unsupported format specifier: %"@ + seq![c] && l == location,
    }
}

/// The integer the `k`-th argument gives an integer conversion: an int as
/// it is, a char widened with its sign.
pub open spec fn int_arg(args: Seq<Value>, k: int, conversion: char) -> Result<i32, PrintfFailure> {
    if k < 0 || k >= args.len() {
        Err(PrintfFailure::MissingArgument)
    } else {
        match args[k] {
            Value::Int(n) => Ok(n),
            Value::Char(c) => Ok(c as i32),
            v => Err(PrintfFailure::NotInt(conversion, v)),
        }
    }
}

/// The `k`-th argument of a `printf` call as an integer.
pub fn expect_int_arg(args: &[Value], arg_index: usize, specifier: char, location: SourceLocation) -> (r:
    Result<i32, RuntimeError>)
    ensures
        match int_arg(args@, arg_index as int, specifier) {
            Ok(n) => r == Ok::<i32, RuntimeError>(n),
            Err(f) => r matches Err(e) && is_printf_error(e, f, location),
        },
{
    if arg_index >= args.len() {
        return Err(
            RuntimeError::InvalidPrintfFormat {
                message: String::from_str("Not enough arguments for format string"),
                location,
            },
        );
    }
    match &args[arg_index] {
        Value::Int(n) => Ok(*n),
        Value::Char(c) => Ok(*c as i32),
        val => {
            let mut message = String::from_str("%");
            push_char(&mut message, specifier);
            message.append(" expects int, got ");
            let got = val.to_text();
            message.append(got.as_str());
            proof {
                reveal_strlit("%");
            }
            assert(message@ =~= seq!['%', specifier] + " expects int, got "@ + value_text(*val));
            Err(RuntimeError::InvalidPrintfFormat { message, location })
        },
    }
}

/// Whether a conversion character takes an argument.
pub open spec fn takes_argument(c: char) -> bool {
    c == 'd' || c == 'u' || c == 'x' || c == 'c' || c == 's'
}

/// What the conversion `%c` writes, with `k` arguments used before it:
/// `%d` the signed decimal, `%u` the decimal and `%x` the lowercase
/// hexadecimal of the integer taken as unsigned 32 bits, `%c` the character
/// of its low byte, `%s` the C string its pointer argument points to, `%%`
/// a percent sign.
pub open spec fn conversion_text(m: Map<u64, BlockView>, c: char, args: Seq<Value>, k: int) -> Result<
    Seq<char>,
    PrintfFailure,
> {
    if c == '%' {
        Ok(seq!['%'])
    } else if c == 'd' || c == 'u' || c == 'x' || c == 'c' {
        match int_arg(args, k, c) {
            Err(f) => Err(f),
            Ok(n) => Ok(
                if c == 'd' {
                    int_text(n as int)
                } else if c == 'u' {
                    decimal_digits((n as u32) as nat)
                } else if c == 'x' {
                    hex_digits((n as u32) as nat)
                } else {
                    seq![((n as u8) as u32) as char]
                },
            ),
        }
    } else if c == 's' {
        if k < 0 || k >= args.len() {
            Err(PrintfFailure::MissingArgument)
        } else {
            match args[k] {
                Value::Pointer(a) => match c_string_text(m, a) {
                    Ok(t) => Ok(t),
                    Err(p) => Err(PrintfFailure::BadString(p)),
                },
                v => Err(PrintfFailure::NotPointer(v)),
            }
        }
    } else if c == 'n' {
        Err(PrintfFailure::WriteCount)
    } else {
        Err(PrintfFailure::Unsupported(c))
    }
}

/// What the escape `\c` in the format text writes: the control character
/// or quote it names, or the backslash and the character as they stand.
pub open spec fn escape_text(c: char) -> Seq<char> {
    if c == 'n' {
        seq!['\n']
    } else if c == 't' {
        seq!['\t']
    } else if c == 'r' {
        seq!['\r']
    } else if c == '\\' {
        seq!['\\']
    } else if c == '"' {
        seq!['"']
    } else {
        seq!['\\', c]
    }
}

/// The output of `printf` for the format text from position `i` on, with
/// `k` arguments used before it: a conversion or an escape takes two
/// characters, a `%` or a backslash at the very end stands for itself, any
/// other character is copied. The first failing conversion decides the
/// failure.
pub open spec fn printf_from(m: Map<u64, BlockView>, fmt: Seq<char>, args: Seq<Value>, i: int, k: int) -> Result<
    Seq<char>,
    PrintfFailure,
>
    decreases fmt.len() - i,
{
    if i < 0 || i >= fmt.len() {
        Ok(Seq::empty())
    } else if fmt[i] == '%' {
        if i + 1 >= fmt.len() {
            Ok(seq!['%'])
        } else {
            match conversion_text(m, fmt[i + 1], args, k) {
                Err(f) => Err(f),
                Ok(out) => prefixed(
                    out,
                    printf_from(
                        m,
                        fmt,
                        args,
                        i + 2,
                        if takes_argument(fmt[i + 1]) {
                            k + 1
                        } else {
                            k
                        },
                    ),
                ),
            }
        }
    } else if fmt[i] == '\\' {
        if i + 1 >= fmt.len() {
            Ok(seq!['\\'])
        } else {
            prefixed(escape_text(fmt[i + 1]), printf_from(m, fmt, args, i + 2, k))
        }
    } else {
        prefixed(seq![fmt[i]], printf_from(m, fmt, args, i + 1, k))
    }
}

/// The output of a `printf` call with this format text and these arguments.
pub open spec fn printf_text(m: Map<u64, BlockView>, fmt: Seq<char>, args: Seq<Value>) -> Result<
    Seq<char>,
    PrintfFailure,
> {
    printf_from(m, fmt, args, 0, 0)
}

/// Append what the conversion `%c` writes to `output`.
fn write_conversion(
    heap: &Heap,
    c: char,
    args: &[Value],
    k: usize,
    location: SourceLocation,
    output: &mut String,
) -> (r: Result<(), RuntimeError>)
    requires
        heap.wf(),
    ensures
        match conversion_text(heap@, c, args@, k as int) {
            Ok(out) => r is Ok && final(output)@ == old(output)@ + out,
            Err(f) => r matches Err(e) && is_printf_error(e, f, location),
        },
{
    if c == '%' {
        push_char(output, '%');
        Ok(())
    } else if c == 'd' || c == 'u' || c == 'x' || c == 'c' {
        let n = expect_int_arg(args, k, c, location)?;
        if c == 'd' {
            push_int(output, n as i64);
        } else if c == 'u' {
            push_decimal(output, (n as u32) as u64);
        } else if c == 'x' {
            push_hex(output, (n as u32) as u64);
        } else {
            let ch = char_from_scalar((n as u8) as u32);
            push_char(output, ch);
        }
        Ok(())
    } else if c == 's' {
        if k >= args.len() {
            return Err(
                RuntimeError::InvalidPrintfFormat {
                    message: String::from_str("Not enough arguments for format string"),
                    location,
                },
            );
        }
        match &args[k] {
            Value::Pointer(addr) => {
                let text = read_string_from_heap(heap, *addr, location)?;
                output.append(text.as_str());
                Ok(())
            },
            val => {
                let mut message = String::from_str("%s expects pointer, got ");
                let got = val.to_text();
                message.append(got.as_str());
                Err(RuntimeError::InvalidPrintfFormat { message, location })
            },
        }
    } else if c == 'n' {
        Err(
            RuntimeError::UnsupportedOperation {
                message: String::from_str("%n format specifier not yet implemented"),
                location,
            },
        )
    } else {
        let mut message = String::from_str("Unsupported format specifier: %");
        push_char(&mut message, c);
        assert(message@ =~= "Unsupported format specifier: %"@ + seq![c]);
        Err(RuntimeError::InvalidPrintfFormat { message, location })
    }
}

/// Append what the escape `\\c` writes to `output`.
fn write_escape(c: char, output: &mut String)
    ensures
        final(output)@ == old(output)@ + escape_text(c),
{
    if c == 'n' {
        push_char(output, '\n');
    } else if c == 't' {
        push_char(output, '\t');
    } else if c == 'r' {
        push_char(output, '\r');
    } else if c == '\\' {
        push_char(output, '\\');
    } else if c == '"' {
        push_char(output, '"');
    } else {
        push_char(output, '\\');
        push_char(output, c);
    }
    assert(final(output)@ =~= old(output)@ + escape_text(c));
}

/// Format the output of a `printf` call: its format text, with its
/// conversions filled in from the arguments in order.
pub fn format_printf(heap: &Heap, format: &str, args: &[Value], location: SourceLocation) -> (r: Result<
    String,
    RuntimeError,
>)
    requires
        heap.wf(),
    ensures
        match printf_text(heap@, format@, args@) {
            Ok(t) => r matches Ok(s) && s@ == t,
            Err(f) => r matches Err(e) && is_printf_error(e, f, location),
        },
{
    let chars = chars_of(format);
    let mut output = String::new();
    let mut i: usize = 0;
    let mut arg_index: usize = 0;
    while i < chars.len()
        invariant
            heap.wf(),
            chars@ == format@,
            i <= chars@.len(),
            chars@.len() <= isize::MAX,
            arg_index <= i,
            printf_text(heap@, format@, args@) == prefixed(
                output@,
                printf_from(heap@, format@, args@, i as int, arg_index as int),
            ),
        decreases chars@.len() - i,
    {
        let ch = chars[i];
        let ghost before = output@;
        let ghost i0 = i as int;
        let ghost k0 = arg_index as int;
        if ch == '%' {
            if i + 1 < chars.len() {
                let next_ch = chars[i + 1];
                write_conversion(heap, next_ch, args, arg_index, location, &mut output)?;
                assert(printf_from(heap@, format@, args@, i0, k0) == prefixed(
                    output@.subrange(before.len() as int, output@.len() as int),
                    printf_from(
                        heap@,
                        format@,
                        args@,
                        i0 + 2,
                        if takes_argument(next_ch) {
                            k0 + 1
                        } else {
                            k0
                        },
                    ),
                )) by {
                    assert(format@[i0] == '%' && format@[i0 + 1] == next_ch);
                    let out = conversion_text(heap@, next_ch, args@, k0)->Ok_0;
                    assert(output@.subrange(before.len() as int, output@.len() as int) =~= out);
                }
                if next_ch == 'd' || next_ch == 'u' || next_ch == 'x' || next_ch == 'c' || next_ch
                    == 's' {
                    arg_index = arg_index + 1;
                }
                i = i + 2;
            } else {
                push_char(&mut output, '%');
                i = i + 1;
                assert(output@.subrange(before.len() as int, output@.len() as int) =~= seq!['%']);
            }
        } else if ch == '\\' {
            if i + 1 < chars.len() {
                let next_ch = chars[i + 1];
                write_escape(next_ch, &mut output);
                i = i + 2;
                assert(format@[i0 + 1] == next_ch);
                assert(output@.subrange(before.len() as int, output@.len() as int) =~= escape_text(
                    next_ch,
                ));
            } else {
                push_char(&mut output, '\\');
                i = i + 1;
                assert(output@.subrange(before.len() as int, output@.len() as int) =~= seq!['\\']);
            }
        } else {
            push_char(&mut output, ch);
            i = i + 1;
            assert(output@.subrange(before.len() as int, output@.len() as int) =~= seq![ch]);
        }
        proof {
            let added = output@.subrange(before.len() as int, output@.len() as int);
            assert(output@ =~= before + added);
            assert(format@[i0] == ch);
            assert(printf_from(heap@, format@, args@, i0, k0) == prefixed(
                added,
                printf_from(heap@, format@, args@, i as int, arg_index as int),
            ));
            match printf_from(heap@, format@, args@, i as int, arg_index as int) {
                Ok(rest) => {
                    assert(before + (added + rest) =~= output@ + rest);
                },
                Err(_) => {},
            }
        }
    }
    assert(output@ + Seq::<char>::empty() =~= output@);
    Ok(output)
}

/// Text with no `%` and no backslash prints as itself, whatever the
/// arguments and the heap.
pub proof fn law_plain_text_prints_itself(m: Map<u64, BlockView>, fmt: Seq<char>, args: Seq<Value>)
    requires
        forall|i: int| 0 <= i < fmt.len() ==> #[trigger] fmt[i] != '%' && fmt[i] != '\\',
    ensures
        printf_text(m, fmt, args) == Ok::<Seq<char>, PrintfFailure>(fmt),
{
    lemma_plain_suffix(m, fmt, args, 0);
    assert(fmt.skip(0) =~= fmt);
}

proof fn lemma_plain_suffix(m: Map<u64, BlockView>, fmt: Seq<char>, args: Seq<Value>, i: int)
    requires
        0 <= i <= fmt.len(),
        forall|j: int| 0 <= j < fmt.len() ==> #[trigger] fmt[j] != '%' && fmt[j] != '\\',
    ensures
        printf_from(m, fmt, args, i, 0) == Ok::<Seq<char>, PrintfFailure>(fmt.skip(i)),
    decreases fmt.len() - i,
{
    if i < fmt.len() {
        lemma_plain_suffix(m, fmt, args, i + 1);
        assert(seq![fmt[i]] + fmt.skip(i + 1) =~= fmt.skip(i));
    } else {
        assert(fmt.skip(i) =~= Seq::<char>::empty());
    }
}

} // verus!
