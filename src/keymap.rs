use vstd::prelude::*;

verus! {

/// A key of the keyboard, as far as the encoder tells keys apart.
#[derive(Clone, Copy, Debug, PartialEq, Eq, Structural)]
pub enum Key {
    Enter,
    Backspace,
    Tab,
    Escape,
    ArrowUp,
    ArrowDown,
    ArrowRight,
    ArrowLeft,
    /// F1 to F10 (and beyond, which send nothing).
    Function(u8),
    /// A letter key, by its ASCII letter.
    Letter(u8),
    Other,
}

/// The byte that Ctrl with `k` sends: a letter, either case, minus `@`.
pub open spec fn ctrl_byte_of(k: Key) -> Option<u8> {
    match k {
        Key::Letter(b) => if 0x41 <= b <= 0x5a {
            Some((b - 0x40) as u8)
        } else if 0x61 <= b <= 0x7a {
            Some((b - 0x60) as u8)
        } else {
            None
        },
        _ => None,
    }
}

/// The VT220 code of F5 to F10 in `ESC [ code ~`.
pub open spec fn function_code(n: u8) -> Seq<u8> {
    if n == 5 {
        seq![0x31u8, 0x35u8]
    } else if n == 6 {
        seq![0x31u8, 0x37u8]
    } else if n == 7 {
        seq![0x31u8, 0x38u8]
    } else if n == 8 {
        seq![0x31u8, 0x39u8]
    } else if n == 9 {
        seq![0x32u8, 0x30u8]
    } else {
        seq![0x32u8, 0x31u8]
    }
}

/// The bytes that `k` sends without modifiers, if it sends any of its own.
/// Escape has none here: `key_input` sends ESC for it before anything else.
pub open spec fn key_bytes(k: Key) -> Option<Seq<u8>> {
    match k {
        Key::Enter => Some(seq![0x0du8]),
        Key::Backspace => Some(seq![0x7fu8]),
        Key::Tab => Some(seq![0x09u8]),
        Key::ArrowUp => Some(seq![0x1bu8, 0x5bu8, 0x41u8]),
        Key::ArrowDown => Some(seq![0x1bu8, 0x5bu8, 0x42u8]),
        Key::ArrowRight => Some(seq![0x1bu8, 0x5bu8, 0x43u8]),
        Key::ArrowLeft => Some(seq![0x1bu8, 0x5bu8, 0x44u8]),
        Key::Function(n) => if 1 <= n <= 4 {
            Some(seq![0x1bu8, 0x4fu8, (0x50 + n - 1) as u8])
        } else if 5 <= n <= 10 {
            Some(seq![0x1bu8, 0x5bu8] + function_code(n) + seq![0x7eu8])
        } else {
            None
        },
        _ => None,
    }
}

/// What a key press sends: Escape always ESC; with Ctrl a letter's control
/// byte; otherwise the key's own bytes.
pub open spec fn key_input(k: Key, ctrl: bool) -> Seq<u8> {
    if k == Key::Escape {
        seq![0x1bu8]
    } else if ctrl {
        match ctrl_byte_of(k) {
            Some(b) => seq![b],
            None => Seq::empty(),
        }
    } else {
        match key_bytes(k) {
            Some(bs) => bs,
            None => Seq::empty(),
        }
    }
}

pub fn ctrl_key_byte(key: Key) -> (r: Option<u8>)
    ensures
        r == ctrl_byte_of(key),
{
    match key {
        Key::Letter(b) => if 0x41 <= b && b <= 0x5a {
            Some(b - 0x40)
        } else if 0x61 <= b && b <= 0x7a {
            Some(b - 0x60)
        } else {
            None
        },
        _ => None,
    }
}

fn push_all(out: &mut Vec<u8>, bytes: &[u8])
    ensures
        final(out)@ == old(out)@ + bytes@,
{
    let mut i: usize = 0;
    while i < bytes.len()
        invariant
            i <= bytes@.len(),
            out@ == old(out)@ + bytes@.take(i as int),
        decreases bytes@.len() - i,
    {
        out.push(bytes[i]);
        i = i + 1;
        assert(out@ =~= old(out)@ + bytes@.take(i as int));
    }
    assert(bytes@.take(i as int) =~= bytes@);
}

/// Appends the bytes that `key` sends without modifiers; `false` (and
/// nothing appended) for a key that sends none.
pub fn push_key_bytes(key: Key, out: &mut Vec<u8>) -> (sent: bool)
    ensures
        sent == key_bytes(key) is Some,
        sent ==> final(out)@ == old(out)@ + key_bytes(key)->0,
        !sent ==> final(out)@ == old(out)@,
{
    match key {
        Key::Enter => out.push(0x0d),
        Key::Backspace => out.push(0x7f),
        Key::Tab => out.push(0x09),
        Key::ArrowUp => push_all(out, &[0x1b, 0x5b, 0x41]),
        Key::ArrowDown => push_all(out, &[0x1b, 0x5b, 0x42]),
        Key::ArrowRight => push_all(out, &[0x1b, 0x5b, 0x43]),
        Key::ArrowLeft => push_all(out, &[0x1b, 0x5b, 0x44]),
        Key::Function(n) => {
            if n < 1 || n > 10 {
                return false;
            }
            if n <= 4 {
                push_all(out, &[0x1b, 0x4f, 0x50 + n - 1]);
            } else {
                let (a, b): (u8, u8) = if n == 5 {
                    (0x31, 0x35)
                } else if n == 6 {
                    (0x31, 0x37)
                } else if n == 7 {
                    (0x31, 0x38)
                } else if n == 8 {
                    (0x31, 0x39)
                } else if n == 9 {
                    (0x32, 0x30)
                } else {
                    (0x32, 0x31)
                };
                push_all(out, &[0x1b, 0x5b, a, b, 0x7e]);
                assert(seq![0x1bu8, 0x5bu8, a, b, 0x7eu8] =~= seq![0x1bu8, 0x5bu8] + function_code(
                    n,
                ) + seq![0x7eu8]);
            }
        },
        _ => {
            return false;
        },
    }
    true
}

/// Appends what a press of `key` sends (see `key_input`).
pub fn append_key_input(key: Key, ctrl: bool, out: &mut Vec<u8>)
    ensures
        final(out)@ == old(out)@ + key_input(key, ctrl),
{
    if key == Key::Escape {
        out.push(0x1b);
    } else if ctrl {
        if let Some(b) = ctrl_key_byte(key) {
            out.push(b);
        } else {
            assert(old(out)@ + Seq::<u8>::empty() =~= old(out)@);
        }
    } else {
        let sent = push_key_bytes(key, out);
        if !sent {
            assert(old(out)@ + Seq::<u8>::empty() =~= old(out)@);
        }
    }
}

/// Appends typed text (its UTF-8 bytes), unless Ctrl is held: then the key
/// press itself is what counts.
pub fn append_text_input(text: &[u8], ctrl: bool, out: &mut Vec<u8>)
    ensures
        ctrl ==> final(out)@ == old(out)@,
        !ctrl ==> final(out)@ == old(out)@ + text@,
{
    if !ctrl {
        push_all(out, text);
    }
}

} // verus!
