//! The registry value that starts the application with Windows.
use crate::text::{chars_of, push_str, string_from, utf16, utf16_of};
use vstd::prelude::*;

verus! {

/// The registry key, under the current user, of programs started at sign-in.
pub const RUN_KEY: &'static str = "Software\\Microsoft\\Windows\\CurrentVersion\\Run";

/// The name of the application's value under [`RUN_KEY`].
pub const VALUE_NAME: &'static str = "VoiceInsert";

/// UTF-16 code units of `value` followed by a terminating zero, the form
/// that wide-string Windows APIs take.
pub fn wide_null(value: &str) -> (r: Vec<u16>)
    ensures
        r@ == utf16(value@).push(0u16),
{
    let cs = chars_of(value);
    let mut out: Vec<u16> = Vec::new();
    let mut i: usize = 0;
    while i < cs.len()
        invariant
            i <= cs.len(),
            cs@ == value@,
            out@ == utf16(cs@.take(i as int)),
        decreases cs.len() - i,
    {
        let c = cs[i];
        let v = c as u32;
        proof {
            assert(cs@.take(i + 1).drop_last() =~= cs@.take(i as int));
        }
        if v < 0x10000 {
            out.push(v as u16);
            proof {
                assert(out@ =~= utf16(cs@.take(i + 1)));
            }
        } else {
            proof {
                vstd::utf8::char_is_scalar(c);
            }
            assert(v <= 0x10FFFF);
            let w = v - 0x10000;
            out.push((0xD800 + w / 0x400) as u16);
            out.push((0xDC00 + w % 0x400) as u16);
            proof {
                assert(out@ =~= utf16(cs@.take(i + 1)));
            }
        }
        i = i + 1;
    }
    proof {
        assert(cs@.take(cs.len() as int) =~= cs@);
    }
    out.push(0);
    out
}

/// The command stored under the run key: the executable's path in quotes.
pub fn autostart_command(exe_path: &str) -> (r: String)
    ensures
        r@ == seq!['"'] + exe_path@ + seq!['"'],
{
    let mut s = string_from("\"");
    push_str(&mut s, exe_path);
    push_str(&mut s, "\"");
    proof {
        reveal_strlit("\"");
        assert(s@ =~= seq!['"'] + exe_path@ + seq!['"']);
    }
    s
}

/// Code units as little-endian bytes.
pub open spec fn le_bytes_of_units(units: Seq<u16>) -> Seq<u8>
    decreases units.len(),
{
    if units.len() == 0 {
        Seq::empty()
    } else {
        le_bytes_of_units(units.drop_last()) + seq![
            (units.last() % 256) as u8,
            (units.last() / 256) as u8,
        ]
    }
}

/// The bytes of a `REG_SZ` registry value holding `value`: its UTF-16 code
/// units with the terminating zero, each in little-endian order.
pub fn registry_string_bytes(value: &str) -> (r: Vec<u8>)
    ensures
        r@ == le_bytes_of_units(utf16(value@).push(0u16)),
{
    let units = wide_null(value);
    let mut out: Vec<u8> = Vec::new();
    let mut i: usize = 0;
    while i < units.len()
        invariant
            i <= units.len(),
            out@ == le_bytes_of_units(units@.take(i as int)),
        decreases units.len() - i,
    {
        let u = units[i];
        out.push((u % 256) as u8);
        out.push((u / 256) as u8);
        proof {
            assert(units@.take(i + 1).drop_last() =~= units@.take(i as int));
            assert(out@ =~= le_bytes_of_units(units@.take(i + 1)));
        }
        i = i + 1;
    }
    proof {
        assert(units@.take(units.len() as int) =~= units@);
    }
    out
}

} // verus!
