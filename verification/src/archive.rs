//! Looking over a library archive before it is read.
//!
//! An archive is a short signature and then member after member, each a
//! header of sixty bytes and the member's bytes. A header holds the member's
//! name in its first sixteen bytes and the member's size as a decimal number
//! in ten bytes from the forty-ninth on. A name too long for the header is
//! kept elsewhere: in a table that is a member of its own, named `//`, to
//! which headers point by `/` and a place in the table; or, written `#1/` and
//! a length, in front of the member's bytes.
//!
//! The look tells whether every header of an archive can be followed to the
//! next, and whether every pointer into the name table points into it. It
//! goes from header to header as the reader of the `ar` crate, version 0.9,
//! does, and has to be kept in step with it: the archives that pass are the
//! ones that the reader is given.

use vstd::prelude::*;

verus! {

/// How the long names of an archive are kept, as far as its headers have
/// shown.
#[derive(Debug, Clone, Copy, PartialEq, Eq, Structural)]
pub enum Variant {
    /// No long name was met yet.
    Common,
    /// Long names stand in front of the members' bytes.
    Bsd,
    /// Long names stand in a table.
    Gnu,
}

/// The length of a header.
pub open spec fn header_len() -> int {
    60
}

/// The largest archive that is looked over.
pub open spec fn size_limit() -> int {
    0xFFFF_FFFF_FFFF
}

/// Whether a byte is a decimal digit.
pub open spec fn is_digit(b: u8) -> bool {
    0x30 <= b <= 0x39
}

/// How many digits a field begins with.
pub open spec fn digit_count(field: Seq<u8>) -> int
    decreases field.len(),
{
    if field.len() == 0 || !is_digit(field[0]) {
        0
    } else {
        1 + digit_count(field.drop_first())
    }
}

/// The number that a string of digits writes.
pub open spec fn digits_value(digits: Seq<u8>) -> nat
    decreases digits.len(),
{
    if digits.len() == 0 {
        0
    } else {
        digits_value(digits.drop_last()) * 10 + (digits.last() - 0x30) as nat
    }
}

/// Whether a field holds a number: digits, at least one, and behind them
/// nothing but spaces.
pub open spec fn is_number_field(field: Seq<u8>) -> bool {
    digit_count(field) >= 1 && forall|i: int|
        digit_count(field) <= i < field.len() ==> #[trigger] field[i] == 0x20
}

/// The number that a field holds.
pub open spec fn field_value(field: Seq<u8>) -> nat {
    digits_value(field.subrange(0, digit_count(field)))
}

/// The length of a name field without the spaces that fill it up.
pub open spec fn name_len(field: Seq<u8>) -> int
    decreases field.len(),
{
    if field.len() == 0 || field.last() != 0x20 {
        field.len() as int
    } else {
        name_len(field.drop_last())
    }
}

/// Whether the name of a field begins with a slash.
pub open spec fn starts_with_slash(field: Seq<u8>) -> bool {
    name_len(field) >= 1 && field[0] == 0x2f
}

/// Whether the name of a field ends with a slash.
pub open spec fn ends_with_slash(field: Seq<u8>) -> bool {
    name_len(field) >= 1 && field[name_len(field) - 1] == 0x2f
}

/// Whether a field names the table of symbols: `/`.
pub open spec fn is_symbol_table(field: Seq<u8>) -> bool {
    name_len(field) == 1 && field[0] == 0x2f
}

/// Whether a field names the table of long names: `//`.
pub open spec fn is_name_table(field: Seq<u8>) -> bool {
    name_len(field) == 2 && field[0] == 0x2f && field[1] == 0x2f
}

/// Whether the name of a field begins with `#1/`.
pub open spec fn starts_with_hash(field: Seq<u8>) -> bool {
    name_len(field) >= 3 && field[0] == 0x23 && field[1] == 0x31 && field[2] == 0x2f
}

/// Whether the headers from `at` on can be followed, with `variant` as what
/// the headers before have shown and `table_len` as the length of the name
/// table met last. A header can be followed where its size is a number and
/// its member lies within the archive; a pointer into the name table has to
/// be a number no larger than the table's length; a long name in front of a
/// member has to have a number as its length.
pub open spec fn safe_from(bytes: Seq<u8>, at: int, variant: Variant, table_len: nat) -> bool
    decreases bytes.len() + 2 - at,
{
    if at < 0 || at + header_len() > bytes.len() {
        true
    } else {
        let name = bytes.subrange(at, at + 16);
        let size_field = bytes.subrange(at + 48, at + 58);
        let size = field_value(size_field);
        let plain_next = at + header_len() + size + size % 2;
        if !is_number_field(size_field) || at + header_len() + size > bytes.len() {
            false
        } else if variant != Variant::Bsd && starts_with_slash(name) {
            if is_symbol_table(name) {
                safe_from(bytes, plain_next, Variant::Gnu, table_len)
            } else if is_name_table(name) {
                safe_from(bytes, plain_next, Variant::Gnu, size)
            } else {
                let pointer = bytes.subrange(at + 1, at + 16);
                is_number_field(pointer) && field_value(pointer) <= table_len && safe_from(
                    bytes,
                    plain_next,
                    Variant::Gnu,
                    table_len,
                )
            }
        } else {
            let shown = if variant != Variant::Bsd && ends_with_slash(name) {
                Variant::Gnu
            } else {
                variant
            };
            if shown != Variant::Gnu && starts_with_hash(name) {
                let length = bytes.subrange(at + 3, at + 16);
                is_number_field(length) && (field_value(length) > size || safe_from(
                    bytes,
                    at + header_len() + size + (size - field_value(length)) % 2,
                    Variant::Bsd,
                    table_len,
                ))
            } else {
                safe_from(bytes, plain_next, shown, table_len)
            }
        }
    }
}

/// Whether an archive can be read: it is no larger than the limit, and its
/// headers can be followed from the first on.
pub open spec fn is_safe_archive(bytes: Seq<u8>) -> bool {
    bytes.len() <= size_limit() && safe_from(bytes, 8, Variant::Common, 0)
}

/// A field that begins with `k` digits and goes on with something else
/// begins with exactly `k` digits.
proof fn lemma_digit_count(field: Seq<u8>, k: int)
    requires
        0 <= k <= field.len(),
        forall|i: int| 0 <= i < k ==> is_digit(#[trigger] field[i]),
        k < field.len() ==> !is_digit(field[k]),
    ensures
        digit_count(field) == k,
    decreases k,
{
    if k > 0 {
        let rest = field.drop_first();
        assert forall|i: int| 0 <= i < k - 1 implies is_digit(#[trigger] rest[i]) by {
            assert(rest[i] == field[i + 1]);
        }
        if k - 1 < rest.len() {
            assert(rest[k - 1] == field[k]);
        }
        lemma_digit_count(rest, k - 1);
        assert(is_digit(field[0]));
    }
}

/// The largest number that is told apart from the larger ones.
pub open spec fn number_cap() -> nat {
    1_000_000_000_000_000
}

/// A number as far as it is told apart: itself, or the cap for any number
/// from the cap on.
pub open spec fn capped(n: nat) -> nat {
    if n < number_cap() {
        n
    } else {
        number_cap()
    }
}

/// Reads the number of the field of `bytes` from `from` up to `to`: the
/// number, capped, where the field holds one.
fn read_number(bytes: &[u8], from: usize, to: usize) -> (r: Option<u64>)
    requires
        from <= to <= bytes.len(),
    ensures
        match r {
            Some(n) => is_number_field(bytes@.subrange(from as int, to as int)) && n == capped(
                field_value(bytes@.subrange(from as int, to as int)),
            ),
            None => !is_number_field(bytes@.subrange(from as int, to as int)),
        },
{
    let ghost field = bytes@.subrange(from as int, to as int);
    let mut value: u64 = 0;
    let mut i: usize = from;
    assert(field.subrange(0, 0) =~= Seq::<u8>::empty());
    while i < to && bytes[i] >= 0x30 && bytes[i] <= 0x39
        invariant
            from <= i <= to <= bytes.len(),
            field == bytes@.subrange(from as int, to as int),
            forall|k: int| 0 <= k < i - from ==> is_digit(#[trigger] field[k]),
            value <= number_cap(),
            value < number_cap() ==> value == digits_value(field.subrange(0, i - from)),
            value == number_cap() ==> digits_value(field.subrange(0, i - from)) >= number_cap(),
        decreases to - i,
    {
        let digit = (bytes[i] - 0x30) as u64;
        proof {
            let longer = field.subrange(0, i - from + 1);
            assert(longer.drop_last() =~= field.subrange(0, i - from));
            assert(longer.last() == bytes[i as int]);
            assert(field[i - from] == bytes[i as int]);
        }
        let next = value * 10 + digit;
        value = if next > 1_000_000_000_000_000 {
            1_000_000_000_000_000
        } else {
            next
        };
        i += 1;
    }
    let digits = i - from;
    proof {
        if i < to {
            assert(field[i - from] == bytes[i as int]);
        }
        lemma_digit_count(field, digits as int);
    }
    if digits == 0 {
        return None;
    }
    let mut j: usize = i;
    while j < to
        invariant
            from <= i <= j <= to <= bytes.len(),
            field == bytes@.subrange(from as int, to as int),
            digit_count(field) == i - from,
            forall|k: int| i - from <= k < j - from ==> #[trigger] field[k] == 0x20,
        decreases to - j,
    {
        if bytes[j] != 0x20 {
            assert(field[j - from] == bytes[j as int]);
            return None;
        }
        assert(field[j - from] == bytes[j as int]);
        j += 1;
    }
    Some(value)
}

/// Finds the length of the name in the field of sixteen bytes from `at` on.
fn read_name_len(bytes: &[u8], at: usize) -> (n: usize)
    requires
        at + 16 <= bytes.len(),
    ensures
        n == name_len(bytes@.subrange(at as int, at + 16)),
        n <= 16,
{
    let ghost field = bytes@.subrange(at as int, at + 16);
    let mut n: usize = 16;
    assert(field.subrange(0, 16) =~= field);
    while n > 0 && bytes[at + n - 1] == 0x20
        invariant
            n <= 16,
            at + 16 <= bytes.len(),
            field == bytes@.subrange(at as int, at + 16),
            name_len(field) == name_len(field.subrange(0, n as int)),
        decreases n,
    {
        proof {
            let shorter = field.subrange(0, n as int);
            assert(shorter.last() == bytes[at + n - 1]);
            assert(shorter.drop_last() =~= field.subrange(0, n - 1));
        }
        n -= 1;
    }
    proof {
        let shorter = field.subrange(0, n as int);
        if n > 0 {
            assert(shorter.last() == bytes[at + n - 1]);
        }
    }
    n
}

/// A capped number is larger than a number below the cap where the number
/// itself is.
proof fn lemma_capped(n: nat, below: nat)
    requires
        below < number_cap(),
    ensures
        capped(n) > below <==> n > below,
        capped(n) <= below ==> capped(n) == n,
{
}

/// Looks an archive over: whether its headers can be followed one after the
/// other, and every pointer into its name table points into the table.
pub fn is_safe(bytes: &[u8]) -> (r: bool)
    ensures
        r == is_safe_archive(bytes@),
{
    let n = bytes.len() as u64;
    if n > 0xFFFF_FFFF_FFFF {
        return false;
    }
    let mut next: u64 = 8;
    let mut variant = Variant::Common;
    let mut table_len: u64 = 0;
    loop
        invariant
            n == bytes.len(),
            n <= size_limit(),
            8 <= next <= n + 8,
            table_len <= n,
            is_safe_archive(bytes@) == safe_from(bytes@, next as int, variant, table_len as nat),
        decreases n + 8 - next,
    {
        if next + 60 > n {
            return true;
        }
        let at = next as usize;
        let ghost name = bytes@.subrange(at as int, at + 16);
        let ghost size_field = bytes@.subrange(at + 48, at + 58);
        let name_n = read_name_len(bytes, at);
        let size = match read_number(bytes, at + 48, at + 58) {
            None => {
                return false;
            },
            Some(size) => size,
        };
        let room = n - next - 60;
        proof {
            lemma_capped(field_value(size_field), room as nat);
        }
        if size > room {
            return false;
        }
        assert(size == field_value(size_field));
        let plain_next = next + 60 + size + size % 2;
        proof {
            assert(name[0] == bytes[at as int]);
            if name_n >= 2 {
                assert(name[1] == bytes[at + 1]);
            }
            if name_n >= 3 {
                assert(name[2] == bytes[at + 2]);
            }
            if name_n >= 1 {
                assert(name[name_n - 1] == bytes[at + name_n - 1]);
            }
        }
        let not_bsd = match variant {
            Variant::Bsd => false,
            _ => true,
        };
        if not_bsd && name_n >= 1 && bytes[at] == 0x2f {
            if name_n == 1 {
            } else if name_n == 2 && bytes[at + 1] == 0x2f {
                table_len = size;
            } else {
                let ghost pointer = bytes@.subrange(at + 1, at + 16);
                match read_number(bytes, at + 1, at + 16) {
                    None => {
                        return false;
                    },
                    Some(place) => {
                        proof {
                            lemma_capped(field_value(pointer), table_len as nat);
                        }
                        if place > table_len {
                            return false;
                        }
                    },
                }
            }
            variant = Variant::Gnu;
            next = plain_next;
        } else {
            let shown = if not_bsd && name_n >= 1 && bytes[at + name_n - 1] == 0x2f {
                Variant::Gnu
            } else {
                variant
            };
            let not_gnu = match shown {
                Variant::Gnu => false,
                _ => true,
            };
            if not_gnu && name_n >= 3 && bytes[at] == 0x23 && bytes[at + 1] == 0x31 && bytes[at + 2]
                == 0x2f {
                let ghost length_field = bytes@.subrange(at + 3, at + 16);
                match read_number(bytes, at + 3, at + 16) {
                    None => {
                        return false;
                    },
                    Some(length) => {
                        proof {
                            lemma_capped(field_value(length_field), size as nat);
                        }
                        if length > size {
                            return true;
                        }
                        variant = Variant::Bsd;
                        next = next + 60 + size + (size - length) % 2;
                    },
                }
            } else {
                variant = shown;
                next = plain_next;
            }
        }
    }
}

} // verus!
