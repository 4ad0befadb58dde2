use vstd::prelude::*;
use vstd::string::*;

verus! {

/// The kind of a touch event, as far as the pointer button cares.
pub enum PointerAction {
    Down,
    PointerDown,
    Up,
    PointerUp,
    Other,
}

/// Whether the pointer button is held after a touch event: a press holds it, a
/// release lets it go, and any other event leaves it as it was.
pub open spec fn held_after(held: bool, action: PointerAction) -> bool {
    match action {
        PointerAction::Down | PointerAction::PointerDown => true,
        PointerAction::Up | PointerAction::PointerUp => false,
        PointerAction::Other => held,
    }
}

/// The pointer button's state after a touch event.
pub fn pointer_held(held: bool, action: PointerAction) -> (r: bool)
    ensures
        r == held_after(held, action),
{
    match action {
        PointerAction::Down | PointerAction::PointerDown => true,
        PointerAction::Up | PointerAction::PointerUp => false,
        PointerAction::Other => held,
    }
}

/// The upper-case hexadecimal digits.
pub open spec fn hex_digits() -> Seq<char> {
    seq!['0', '1', '2', '3', '4', '5', '6', '7', '8', '9', 'A', 'B', 'C', 'D', 'E', 'F']
}

/// The last `width` hexadecimal digits of `x`, most significant first, upper case,
/// padded with zeros.
pub open spec fn hex_upper(x: nat, width: nat) -> Seq<char>
    decreases width,
{
    if width == 0 {
        Seq::empty()
    } else {
        hex_upper(x / 16, (width - 1) as nat).push(hex_digits()[(x % 16) as int])
    }
}

/// The program counter line of the panel: `PC: 0x` and the counter in eight
/// upper-case hexadecimal digits.
pub open spec fn pc_line(pc: u32) -> Seq<char> {
    seq!['P', 'C', ':', ' ', '0', 'x'] + hex_upper(pc as nat, 8)
}

/// Appends the last `width` hexadecimal digits of `x` to `out`.
fn push_hex(out: &mut String, x: u32, width: usize)
    ensures
        final(out)@ == old(out)@ + hex_upper(x as nat, width as nat),
    decreases width,
{
    if width > 0 {
        push_hex(out, x / 16, width - 1);
        let d = (x % 16) as usize;
        let digits = "0123456789ABCDEF";
        proof {
            reveal_strlit("0123456789ABCDEF");
            assert(digits@ =~= hex_digits());
        }
        let digit = digits.substring_char(d, d + 1);
        let ghost before = out@;
        out.append(digit);
        proof {
            assert(digit@ =~= seq![hex_digits()[d as int]]);
            assert((x as nat) / 16 == (x / 16) as nat);
            assert(out@ =~= old(out)@ + hex_upper(x as nat, width as nat));
        }
    } else {
        assert(old(out)@ + hex_upper(x as nat, 0) =~= old(out)@);
    }
}

/// The program counter as the panel shows it, like `PC: 0x0000ABCD`.
pub fn pc_text(pc: u32) -> (line: String)
    ensures
        line@ == pc_line(pc),
{
    let mut line = String::from_str("PC: 0x");
    proof {
        reveal_strlit("PC: 0x");
        assert("PC: 0x"@ =~= seq!['P', 'C', ':', ' ', '0', 'x']);
    }
    push_hex(&mut line, pc, 8);
    line
}

/// The lines that tell the state of the game in the panel: with a game loaded, that
/// it is loaded and where its program counter is; otherwise that none is loaded.
pub fn game_status_lines(game_loaded: bool, pc: u32) -> (lines: Vec<String>)
    ensures
        game_loaded ==> lines@.len() == 2 && lines@[0]@ == "Game: ✅ Flappy Bird loaded"@
            && lines@[1]@ == pc_line(pc),
        !game_loaded ==> lines@.len() == 1 && lines@[0]@ == "Game: ❌ Not loaded"@,
{
    let mut lines: Vec<String> = Vec::new();
    if game_loaded {
        lines.push(String::from_str("Game: ✅ Flappy Bird loaded"));
        lines.push(pc_text(pc));
    } else {
        lines.push(String::from_str("Game: ❌ Not loaded"));
    }
    lines
}

/// Sixteen to the power `w`.
spec fn pow16(w: nat) -> nat
    decreases w,
{
    if w == 0 {
        1
    } else {
        16 * pow16((w - 1) as nat)
    }
}

proof fn pow16_positive(w: nat)
    ensures
        pow16(w) > 0,
    decreases w,
{
    if w > 0 {
        pow16_positive((w - 1) as nat);
    }
}

/// The value of a hexadecimal digit.
spec fn digit_value(c: char) -> int {
    if (c as u32) < 65 {
        c as u32 - 48
    } else {
        c as u32 - 55
    }
}

proof fn digit_value_inverts(d: int)
    requires
        0 <= d < 16,
    ensures
        digit_value(hex_digits()[d]) == d,
{
}

proof fn hex_upper_injective(x: nat, y: nat, w: nat)
    requires
        hex_upper(x, w) == hex_upper(y, w),
    ensures
        x % pow16(w) == y % pow16(w),
    decreases w,
{
    if w > 0 {
        let v = (w - 1) as nat;
        let hx = hex_upper(x, w);
        let hy = hex_upper(y, w);
        assert(hx.drop_last() =~= hex_upper(x / 16, v));
        assert(hy.drop_last() =~= hex_upper(y / 16, v));
        hex_upper_injective(x / 16, y / 16, v);
        assert(hx.last() == hex_digits()[(x % 16) as int]);
        assert(hy.last() == hex_digits()[(y % 16) as int]);
        digit_value_inverts((x % 16) as int);
        digit_value_inverts((y % 16) as int);
        pow16_positive(v);
        vstd::arithmetic::div_mod::lemma_mod_breakdown(x as int, 16, pow16(v) as int);
        vstd::arithmetic::div_mod::lemma_mod_breakdown(y as int, 16, pow16(v) as int);
    }
}

/// The panel shows the program counter in full: two different counters never give
/// the same line.
pub proof fn pc_line_injective(a: u32, b: u32)
    requires
        pc_line(a) == pc_line(b),
    ensures
        a == b,
{
    assert(pc_line(a).skip(6) =~= hex_upper(a as nat, 8));
    assert(pc_line(b).skip(6) =~= hex_upper(b as nat, 8));
    hex_upper_injective(a as nat, b as nat, 8);
    reveal_with_fuel(pow16, 9);
    assert(pow16(8) == 0x1_0000_0000);
    vstd::arithmetic::div_mod::lemma_small_mod(a as nat, pow16(8));
    vstd::arithmetic::div_mod::lemma_small_mod(b as nat, pow16(8));
}

/// A press holds the pointer and a release lets it go, whatever its state before;
/// any other event leaves it as it was.
pub proof fn press_holds_release_frees(held: bool)
    ensures
        held_after(held, PointerAction::Down),
        held_after(held, PointerAction::PointerDown),
        !held_after(held, PointerAction::Up),
        !held_after(held, PointerAction::PointerUp),
        held_after(held, PointerAction::Other) == held,
{
}

} // verus!
