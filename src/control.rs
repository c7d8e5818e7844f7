//! What a key press asks for: a step in one of eight directions, staying
//! put, a jump to a random cell, freezing the robots, or quitting.

use vstd::prelude::*;

use crate::field::Field;
use crate::random::random_usize;

verus! {

/// `q`: end the game.
pub const KEY_QUIT: i32 = 113;

/// `j`: one cell left.
pub const KEY_LEFT: i32 = 106;

/// `,`: one cell down.
pub const KEY_DOWN: i32 = 44;

/// `i`: one cell up.
pub const KEY_UP: i32 = 105;

/// `l`: one cell right.
pub const KEY_RIGHT: i32 = 108;

/// Space: stay put.
pub const KEY_STAY: i32 = 32;

/// `o`: up and right.
pub const KEY_RUP: i32 = 111;

/// `.`: down and right.
pub const KEY_RDOWN: i32 = 46;

/// `u`: up and left.
pub const KEY_LUP: i32 = 117;

/// `m`: down and left.
pub const KEY_LDOWN: i32 = 109;

/// `k`: jump to a random cell.
pub const KEY_RAND: i32 = 107;

/// `0`: from now on the player stays put until the game is decided.
pub const KEY_STOP: i32 = 48;

/// What the game does after a key press.
#[derive(Clone, Copy, Debug, PartialEq, Eq, Structural)]
pub enum Status {
    /// Play the turn.
    Normal,
    /// The key means nothing: skip it.
    Unknown,
    /// Freeze the player until the game is decided.
    Stop,
    /// End the game.
    Exit,
}

/// The status that key `ch` leads to.
pub open spec fn key_status(ch: i32) -> Status {
    if ch == KEY_QUIT {
        Status::Exit
    } else if ch == KEY_STOP {
        Status::Stop
    } else if ch == KEY_RIGHT || ch == KEY_LEFT || ch == KEY_DOWN || ch == KEY_UP || ch == KEY_RUP
        || ch == KEY_LUP || ch == KEY_RDOWN || ch == KEY_LDOWN || ch == KEY_RAND || ch == KEY_STAY {
        Status::Normal
    } else {
        Status::Unknown
    }
}

/// One cell forward on an axis of `n` cells, unless `a` is on the last one.
pub open spec fn forward(a: usize, n: usize) -> usize {
    if a + 1 < n {
        (a + 1) as usize
    } else {
        a
    }
}

/// One cell back, unless `a` is on the first one.
pub open spec fn backward(a: usize) -> usize {
    if a > 0 {
        (a - 1) as usize
    } else {
        a
    }
}

/// The cell that key `ch` aims at from `(x, y)` on a `w` by `h` field; a
/// jump lands on `(rx % w, ry % h)`.  Keys that move nothing keep `(x, y)`.
pub open spec fn key_target(
    ch: i32,
    w: usize,
    h: usize,
    x: usize,
    y: usize,
    rx: usize,
    ry: usize,
) -> (usize, usize) {
    if ch == KEY_RIGHT {
        (forward(x, w), y)
    } else if ch == KEY_LEFT {
        (backward(x), y)
    } else if ch == KEY_DOWN {
        (x, forward(y, h))
    } else if ch == KEY_UP {
        (x, backward(y))
    } else if ch == KEY_RUP {
        (forward(x, w), backward(y))
    } else if ch == KEY_LUP {
        (backward(x), backward(y))
    } else if ch == KEY_RDOWN {
        (forward(x, w), forward(y, h))
    } else if ch == KEY_LDOWN {
        (backward(x), forward(y, h))
    } else if ch == KEY_RAND {
        ((rx % w) as usize, (ry % h) as usize)
    } else {
        (x, y)
    }
}

fn forward_of(a: usize, n: usize) -> (r: usize)
    requires
        n > 0,
    ensures
        r == forward(a, n),
{
    if a < n - 1 {
        a + 1
    } else {
        a
    }
}

fn backward_of(a: usize) -> (r: usize)
    ensures
        r == backward(a),
{
    if a > 0 {
        a - 1
    } else {
        a
    }
}

/// Reads key `ch` for a player who aims at `(x_org, y_org)` on `field`, with
/// `rx` and `ry` as the draws for a jump.  On `Status::Normal` the aim moves
/// to `key_target`; on any other status it stays.
pub fn input_with(
    ch: i32,
    field: &Field,
    x_org: &mut usize,
    y_org: &mut usize,
    rx: usize,
    ry: usize,
) -> (r: Status)
    requires
        field.width > 0,
        field.height > 0,
    ensures
        r == key_status(ch),
        (*final(x_org), *final(y_org)) == if r == Status::Normal {
            key_target(ch, field.width, field.height, *old(x_org), *old(y_org), rx, ry)
        } else {
            (*old(x_org), *old(y_org))
        },
{
    let w = field.width;
    let h = field.height;
    let mut x = *x_org;
    let mut y = *y_org;
    if ch == KEY_RIGHT {
        x = forward_of(x, w);
    } else if ch == KEY_LEFT {
        x = backward_of(x);
    } else if ch == KEY_DOWN {
        y = forward_of(y, h);
    } else if ch == KEY_UP {
        y = backward_of(y);
    } else if ch == KEY_RUP {
        y = backward_of(y);
        x = forward_of(x, w);
    } else if ch == KEY_LUP {
        y = backward_of(y);
        x = backward_of(x);
    } else if ch == KEY_RDOWN {
        y = forward_of(y, h);
        x = forward_of(x, w);
    } else if ch == KEY_LDOWN {
        y = forward_of(y, h);
        x = backward_of(x);
    } else if ch == KEY_RAND {
        x = rx % w;
        y = ry % h;
    } else if ch == KEY_QUIT {
        return Status::Exit;
    } else if ch == KEY_STAY {
    } else if ch == KEY_STOP {
        return Status::Stop;
    } else {
        return Status::Unknown;
    }
    *x_org = x;
    *y_org = y;
    Status::Normal
}

/// Reads key `ch` for a player who aims at `(x_org, y_org)` on `field`.  A
/// jump draws its cell at random, anywhere on the field; every other key
/// does what `input_with` says.
pub fn input(ch: i32, field: &Field, x_org: &mut usize, y_org: &mut usize) -> (r: Status)
    requires
        field.width > 0,
        field.height > 0,
    ensures
        r == key_status(ch),
        ch != KEY_RAND ==> (*final(x_org), *final(y_org)) == if r == Status::Normal {
            key_target(ch, field.width, field.height, *old(x_org), *old(y_org), 0, 0)
        } else {
            (*old(x_org), *old(y_org))
        },
        ch == KEY_RAND ==> *final(x_org) < field.width && *final(y_org) < field.height,
{
    let mut rx: usize = 0;
    let mut ry: usize = 0;
    if ch == KEY_RAND {
        rx = random_usize();
        ry = random_usize();
    }
    input_with(ch, field, x_org, y_org, rx, ry)
}

} // verus!
