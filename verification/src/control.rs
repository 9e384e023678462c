//! scrcpy control messages: a one-byte type, then a big-endian
//! payload in the v2.7 server's layout.

use vstd::prelude::*;
use vstd::string::StringSliceAdditionalSpecFns;

verus! {

/// Control message types.
pub const MSG_INJECT_KEYCODE: u8 = 0;

pub const MSG_INJECT_TEXT: u8 = 1;

pub const MSG_INJECT_TOUCH: u8 = 2;

pub const MSG_INJECT_SCROLL: u8 = 3;

/// Big-endian bytes of a `u16`.
pub open spec fn be16(x: u16) -> Seq<u8> {
    seq![(x as int / 0x100) as u8, (x as int % 0x100) as u8]
}

/// Big-endian bytes of a `u32`.
pub open spec fn be32(x: u32) -> Seq<u8> {
    seq![
        (x as int / 0x1000000) as u8,
        (x as int / 0x10000 % 0x100) as u8,
        (x as int / 0x100 % 0x100) as u8,
        (x as int % 0x100) as u8,
    ]
}

/// Big-endian bytes of a `u64`.
pub open spec fn be64(x: u64) -> Seq<u8> {
    be32((x as int / 0x100000000) as u32) + be32((x as int % 0x100000000) as u32)
}

/// Big-endian bytes of an `i32`, two's complement.
pub open spec fn be32s(x: i32) -> Seq<u8> {
    be32(
        (if x >= 0 {
            x as int
        } else {
            x as int + 0x100000000
        }) as u32,
    )
}

pub fn be16_bytes(x: u16, out: &mut Vec<u8>)
    ensures
        final(out)@ == old(out)@ + be16(x),
{
    out.push((x / 0x100) as u8);
    out.push((x % 0x100) as u8);
    proof {
        assert(out@ =~= old(out)@ + be16(x));
    }
}

pub fn be32_bytes(x: u32, out: &mut Vec<u8>)
    ensures
        final(out)@ == old(out)@ + be32(x),
{
    out.push((x / 0x1000000) as u8);
    out.push((x / 0x10000 % 0x100) as u8);
    out.push((x / 0x100 % 0x100) as u8);
    out.push((x % 0x100) as u8);
    proof {
        assert(out@ =~= old(out)@ + be32(x));
    }
}

pub fn be64_bytes(x: u64, out: &mut Vec<u8>)
    ensures
        final(out)@ == old(out)@ + be64(x),
{
    be32_bytes((x / 0x100000000) as u32, out);
    be32_bytes((x % 0x100000000) as u32, out);
    proof {
        assert(out@ =~= old(out)@ + be64(x));
    }
}

pub fn be32s_bytes(x: i32, out: &mut Vec<u8>)
    ensures
        final(out)@ == old(out)@ + be32s(x),
{
    if x >= 0 {
        be32_bytes(x as u32, out);
    } else {
        let wide: i64 = (x as i64) + 0x100000000;
        be32_bytes(wide as u32, out);
    }
}

/// The touch message: type 2, then action, pointer id, raw pixel
/// coordinates, the video frame's dimensions, maximum pressure, and
/// zeroed buttons — 32 bytes in all.
pub open spec fn touch_message_spec(action: u8, x: u32, y: u32, width: u16, height: u16) -> Seq<
    u8,
> {
    seq![MSG_INJECT_TOUCH, action] + be64(0) + be32(x) + be32(y) + be16(width) + be16(height)
        + be16(0xffff) + be32(0) + be32(0)
}

/// Encode a touch event.  Coordinates are raw pixels in the video
/// frame's coordinate system; width and height must match the current
/// video dimensions (their low sixteen bits are sent).
pub fn scrcpy_touch(action: u8, x: u32, y: u32, width: u32, height: u32) -> (msg: Vec<u8>)
    ensures
        msg@ == touch_message_spec(action, x, y, (width as int % 0x10000) as u16, (
        height as int % 0x10000) as u16),
        msg@.len() == 32,
{
    let mut msg: Vec<u8> = Vec::new();
    msg.push(MSG_INJECT_TOUCH);
    msg.push(action);
    be64_bytes(0, &mut msg);
    be32_bytes(x, &mut msg);
    be32_bytes(y, &mut msg);
    be16_bytes((width % 0x10000) as u16, &mut msg);
    be16_bytes((height % 0x10000) as u16, &mut msg);
    be16_bytes(0xffff, &mut msg);
    be32_bytes(0, &mut msg);
    be32_bytes(0, &mut msg);
    proof {
        assert(msg@ =~= touch_message_spec(action, x, y, (width as int % 0x10000) as u16, (
        height as int % 0x10000) as u16));
    }
    msg
}

/// The scroll message: type 3, position, frame dimensions, signed
/// scroll amounts, zeroed buttons — 25 bytes in all.
pub open spec fn scroll_message_spec(
    x: u32,
    y: u32,
    width: u16,
    height: u16,
    h_scroll: i32,
    v_scroll: i32,
) -> Seq<u8> {
    seq![MSG_INJECT_SCROLL] + be32(x) + be32(y) + be16(width) + be16(height) + be32s(h_scroll)
        + be32s(v_scroll) + be32(0)
}

/// Encode a scroll event.
pub fn scrcpy_scroll(x: u32, y: u32, h_scroll: i32, v_scroll: i32, width: u32, height: u32) -> (
    msg: Vec<u8>)
    ensures
        msg@ == scroll_message_spec(x, y, (width as int % 0x10000) as u16, (height as int
            % 0x10000) as u16, h_scroll, v_scroll),
        msg@.len() == 25,
{
    let mut msg: Vec<u8> = Vec::new();
    msg.push(MSG_INJECT_SCROLL);
    be32_bytes(x, &mut msg);
    be32_bytes(y, &mut msg);
    be16_bytes((width % 0x10000) as u16, &mut msg);
    be16_bytes((height % 0x10000) as u16, &mut msg);
    be32s_bytes(h_scroll, &mut msg);
    be32s_bytes(v_scroll, &mut msg);
    be32_bytes(0, &mut msg);
    proof {
        assert(msg@ =~= scroll_message_spec(x, y, (width as int % 0x10000) as u16, (
        height as int % 0x10000) as u16, h_scroll, v_scroll));
    }
    msg
}

/// The key message: type 0, action, keycode, repeat (always zero),
/// metastate — 14 bytes in all.
pub open spec fn key_message_spec(action: u8, keycode: u32, metastate: u32) -> Seq<u8> {
    seq![MSG_INJECT_KEYCODE, action] + be32(keycode) + be32(0) + be32(metastate)
}

/// Encode a key event.
pub fn scrcpy_key(action: u8, keycode: u32, metastate: u32) -> (msg: Vec<u8>)
    ensures
        msg@ == key_message_spec(action, keycode, metastate),
        msg@.len() == 14,
{
    let mut msg: Vec<u8> = Vec::new();
    msg.push(MSG_INJECT_KEYCODE);
    msg.push(action);
    be32_bytes(keycode, &mut msg);
    be32_bytes(0, &mut msg);
    be32_bytes(metastate, &mut msg);
    proof {
        assert(msg@ =~= key_message_spec(action, keycode, metastate));
    }
    msg
}

/// The text message: type 1, the UTF-8 length, the UTF-8 bytes.
pub open spec fn text_message_spec(utf8: Seq<u8>) -> Seq<u8> {
    seq![MSG_INJECT_TEXT] + be32(utf8.len() as u32) + utf8
}

/// Encode a text injection event from the text's UTF-8 bytes.
pub fn scrcpy_text(text: &str) -> (msg: Vec<u8>)
    requires
        text.spec_bytes().len() <= u32::MAX,
    ensures
        msg@ == text_message_spec(text.spec_bytes()),
{
    let bytes = text.as_bytes();
    let n = bytes.len();
    let mut msg: Vec<u8> = Vec::new();
    msg.push(MSG_INJECT_TEXT);
    be32_bytes(n as u32, &mut msg);
    let mut i: usize = 0;
    let ghost head = seq![MSG_INJECT_TEXT] + be32(n as u32);
    while i < bytes.len()
        invariant
            0 <= i <= bytes@.len(),
            msg@ == head + bytes@.take(i as int),
        decreases bytes@.len() - i,
    {
        msg.push(bytes[i]);
        proof {
            assert(msg@ =~= head + bytes@.take(i + 1 as int));
        }
        i = i + 1;
    }
    proof {
        assert(bytes@.take(bytes@.len() as int) =~= bytes@);
        assert(msg@ =~= text_message_spec(text.spec_bytes()));
    }
    msg
}

} // verus!
