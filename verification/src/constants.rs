//! Task model: the action kinds, a task step, and the bit layouts that pack
//! several small values into a step's `param` and `extra` words.

use vstd::prelude::*;

verus! {

/// Main window width in pixels.
pub const WND_W: i32 = 760;

/// Main window height in pixels.
pub const WND_H: i32 = 480;

/// The kind of a task step. Its storage code is given by [`TaskActionType::code`].
#[derive(Clone, Copy, PartialEq, Eq, Structural, Debug)]
pub enum TaskActionType {
    MouseClick,
    Delay,
    KeyPress,
    MouseWheel,
    MouseMove,
    MouseDown,
    MouseUp,
    KeyDown,
    KeyUp,
    ImageMatch,
    Notify,
    LostFocus,
    RandomDelay,
    ComboKey,
    WaitUntil,
    CopyText,
    Comment,
    WaitKey,
    WaitInput,
    ShowWindow,
    HideWindow,
    OpenProgram,
}

/// Storage code of an action kind (0 to 21, in declaration order).
pub open spec fn action_code(a: TaskActionType) -> u8 {
    match a {
        TaskActionType::MouseClick => 0,
        TaskActionType::Delay => 1,
        TaskActionType::KeyPress => 2,
        TaskActionType::MouseWheel => 3,
        TaskActionType::MouseMove => 4,
        TaskActionType::MouseDown => 5,
        TaskActionType::MouseUp => 6,
        TaskActionType::KeyDown => 7,
        TaskActionType::KeyUp => 8,
        TaskActionType::ImageMatch => 9,
        TaskActionType::Notify => 10,
        TaskActionType::LostFocus => 11,
        TaskActionType::RandomDelay => 12,
        TaskActionType::ComboKey => 13,
        TaskActionType::WaitUntil => 14,
        TaskActionType::CopyText => 15,
        TaskActionType::Comment => 16,
        TaskActionType::WaitKey => 17,
        TaskActionType::WaitInput => 18,
        TaskActionType::ShowWindow => 19,
        TaskActionType::HideWindow => 20,
        TaskActionType::OpenProgram => 21,
    }
}

/// The kind with storage code `c`, if there is one.
pub open spec fn action_from_code(c: u8) -> Option<TaskActionType> {
    if c == 0 {
        Some(TaskActionType::MouseClick)
    } else if c == 1 {
        Some(TaskActionType::Delay)
    } else if c == 2 {
        Some(TaskActionType::KeyPress)
    } else if c == 3 {
        Some(TaskActionType::MouseWheel)
    } else if c == 4 {
        Some(TaskActionType::MouseMove)
    } else if c == 5 {
        Some(TaskActionType::MouseDown)
    } else if c == 6 {
        Some(TaskActionType::MouseUp)
    } else if c == 7 {
        Some(TaskActionType::KeyDown)
    } else if c == 8 {
        Some(TaskActionType::KeyUp)
    } else if c == 9 {
        Some(TaskActionType::ImageMatch)
    } else if c == 10 {
        Some(TaskActionType::Notify)
    } else if c == 11 {
        Some(TaskActionType::LostFocus)
    } else if c == 12 {
        Some(TaskActionType::RandomDelay)
    } else if c == 13 {
        Some(TaskActionType::ComboKey)
    } else if c == 14 {
        Some(TaskActionType::WaitUntil)
    } else if c == 15 {
        Some(TaskActionType::CopyText)
    } else if c == 16 {
        Some(TaskActionType::Comment)
    } else if c == 17 {
        Some(TaskActionType::WaitKey)
    } else if c == 18 {
        Some(TaskActionType::WaitInput)
    } else if c == 19 {
        Some(TaskActionType::ShowWindow)
    } else if c == 20 {
        Some(TaskActionType::HideWindow)
    } else if c == 21 {
        Some(TaskActionType::OpenProgram)
    } else {
        None
    }
}

/// Decoding the storage code of a kind gives back that kind.
pub proof fn lemma_action_code_roundtrip(a: TaskActionType)
    ensures
        action_from_code(action_code(a)) == Some(a),
        action_code(a) < 22,
{
}

/// Number of action kinds; the valid storage codes are `0..ACTION_COUNT`.
pub const ACTION_COUNT: u8 = 22;

impl TaskActionType {
    /// The storage code of this kind.
    pub fn code(self) -> (c: u8)
        ensures
            c == action_code(self),
            c < ACTION_COUNT,
    {
        match self {
            TaskActionType::MouseClick => 0,
            TaskActionType::Delay => 1,
            TaskActionType::KeyPress => 2,
            TaskActionType::MouseWheel => 3,
            TaskActionType::MouseMove => 4,
            TaskActionType::MouseDown => 5,
            TaskActionType::MouseUp => 6,
            TaskActionType::KeyDown => 7,
            TaskActionType::KeyUp => 8,
            TaskActionType::ImageMatch => 9,
            TaskActionType::Notify => 10,
            TaskActionType::LostFocus => 11,
            TaskActionType::RandomDelay => 12,
            TaskActionType::ComboKey => 13,
            TaskActionType::WaitUntil => 14,
            TaskActionType::CopyText => 15,
            TaskActionType::Comment => 16,
            TaskActionType::WaitKey => 17,
            TaskActionType::WaitInput => 18,
            TaskActionType::ShowWindow => 19,
            TaskActionType::HideWindow => 20,
            TaskActionType::OpenProgram => 21,
        }
    }

    /// The kind with storage code `c`, if there is one.
    pub fn from_code(c: u8) -> (r: Option<TaskActionType>)
        ensures
            r == action_from_code(c),
            r is Some <==> c < ACTION_COUNT,
            r matches Some(a) ==> action_code(a) == c,
    {
        match c {
            0 => Some(TaskActionType::MouseClick),
            1 => Some(TaskActionType::Delay),
            2 => Some(TaskActionType::KeyPress),
            3 => Some(TaskActionType::MouseWheel),
            4 => Some(TaskActionType::MouseMove),
            5 => Some(TaskActionType::MouseDown),
            6 => Some(TaskActionType::MouseUp),
            7 => Some(TaskActionType::KeyDown),
            8 => Some(TaskActionType::KeyUp),
            9 => Some(TaskActionType::ImageMatch),
            10 => Some(TaskActionType::Notify),
            11 => Some(TaskActionType::LostFocus),
            12 => Some(TaskActionType::RandomDelay),
            13 => Some(TaskActionType::ComboKey),
            14 => Some(TaskActionType::WaitUntil),
            15 => Some(TaskActionType::CopyText),
            16 => Some(TaskActionType::Comment),
            17 => Some(TaskActionType::WaitKey),
            18 => Some(TaskActionType::WaitInput),
            19 => Some(TaskActionType::ShowWindow),
            20 => Some(TaskActionType::HideWindow),
            21 => Some(TaskActionType::OpenProgram),
            _ => None,
        }
    }
}

/// Distinct kinds have distinct storage codes, so a code names at most one kind.
pub proof fn lemma_action_code_injective(a: TaskActionType, b: TaskActionType)
    ensures
        action_code(a) == action_code(b) ==> a == b,
{
}

/// One step of a task list.
///
/// `param` holds, by kind: the mouse button (and hold time), the virtual key
/// (and hold time), the delay in milliseconds, a packed move target, a packed
/// image/message id pair, or a message id. `extra` holds, by kind: a duration,
/// a confidence, a jitter radius, a key count or option bits.
#[derive(Clone, Copy, PartialEq, Eq, Structural, Debug)]
pub struct TaskStep {
    pub action: TaskActionType,
    pub param: u64,
    pub extra: u32,
}

/// 2^32.
pub open spec fn two32() -> int {
    0x1_0000_0000
}

/// The parameter word of a move target: `x`'s bit pattern low, `y`'s high.
pub open spec fn move_param(x: i32, y: i32) -> u64 {
    ((x as u32) as int + (y as u32) as int * 0x1_0000_0000) as u64
}

/// Packs a move target: `x` in the low 32 bits, `y` in the high 32 bits,
/// each as its two's complement bit pattern. `(-1, -1)` stands for the
/// screen centre, `(-2, id)` for the centre of the window whose title is
/// message `id`.
pub fn pack_move(x: i32, y: i32) -> (p: u64)
    ensures
        p % 0x1_0000_0000 == x as u32,
        p / 0x1_0000_0000 == y as u32,
        p == move_param(x, y),
{
    let lo = (x as u32) as u64;
    let hi = (y as u32) as u64;
    let p = lo | (hi << 32u64);
    assert(p % 0x1_0000_0000 == lo && p / 0x1_0000_0000 == hi) by (bit_vector)
        requires
            lo < 0x1_0000_0000,
            hi < 0x1_0000_0000,
            p == lo | (hi << 32u64),
    ;
    p
}

/// Unpacks a move target packed by [`pack_move`].
pub fn unpack_move(param: u64) -> (r: (i32, i32))
    ensures
        r.0 as u32 == param % 0x1_0000_0000,
        r.1 as u32 == param / 0x1_0000_0000,
{
    let lo = param as u32;
    let hi = (param >> 32u64) as u32;
    assert(lo == param % 0x1_0000_0000 && hi == param / 0x1_0000_0000) by (bit_vector)
        requires
            lo == param as u32,
            hi == (param >> 32u64) as u32,
    ;
    let x = lo as i32;
    let y = hi as i32;
    assert(x as u32 == lo && y as u32 == hi) by (bit_vector)
        requires
            x == lo as i32,
            y == hi as i32,
    ;
    (x, y)
}

/// Packs an image-match parameter: the image id in the low 32 bits, the id of
/// the failure message (0 for none) in the high 32 bits.
pub fn pack_image_match(image_id: u32, fail_msg_id: u32) -> (p: u64)
    ensures
        p % 0x1_0000_0000 == image_id,
        p / 0x1_0000_0000 == fail_msg_id,
{
    let lo = image_id as u64;
    let hi = fail_msg_id as u64;
    let p = lo | (hi << 32u64);
    assert(p % 0x1_0000_0000 == lo && p / 0x1_0000_0000 == hi) by (bit_vector)
        requires
            lo < 0x1_0000_0000,
            hi < 0x1_0000_0000,
            p == lo | (hi << 32u64),
    ;
    p
}

/// Unpacks an image-match parameter packed by [`pack_image_match`].
pub fn unpack_image_match(param: u64) -> (r: (u32, u32))
    ensures
        r.0 == param % 0x1_0000_0000,
        r.1 == param / 0x1_0000_0000,
{
    let lo = param as u32;
    let hi = (param >> 32u64) as u32;
    assert(lo == param % 0x1_0000_0000 && hi == param / 0x1_0000_0000) by (bit_vector)
        requires
            lo == param as u32,
            hi == (param >> 32u64) as u32,
    ;
    (lo, hi)
}

/// Unpacking a packed move target gives back both coordinates.
pub proof fn lemma_move_roundtrip(x: i32, y: i32, p: u64)
    requires
        p % 0x1_0000_0000 == x as u32,
        p / 0x1_0000_0000 == y as u32,
    ensures
        forall|r: (i32, i32)|
            r.0 as u32 == p % 0x1_0000_0000 && r.1 as u32 == p / 0x1_0000_0000 ==> r == (x, y),
{
    assert forall|r: (i32, i32)|
        r.0 as u32 == p % 0x1_0000_0000 && r.1 as u32 == p / 0x1_0000_0000 implies r == (x, y) by {
        lemma_i32_bits_injective(r.0, x);
        lemma_i32_bits_injective(r.1, y);
    }
}

/// Two `i32` values with the same bit pattern are equal.
pub proof fn lemma_i32_bits_injective(a: i32, b: i32)
    ensures
        a as u32 == b as u32 ==> a == b,
{
    assert(a as u32 == b as u32 ==> a == b) by (bit_vector);
}

/// Reading the fields of a step's 64-bit parameter with masks and shifts
/// gives its remainders and quotients by powers of two.
pub proof fn lemma_param_fields(p: u64)
    ensures
        p & 0xFF == p % 256,
        p >> 8u64 == p / 256,
        p & 0xFFFF == p % 0x10000,
        p >> 16u64 == p / 0x10000,
        (p as u32) as u64 == p % 0x1_0000_0000,
        p as u32 == p % 0x1_0000_0000,
        p >> 32u64 == p / 0x1_0000_0000,
        (p >> 32u64) as u32 == p / 0x1_0000_0000,
        (p >> 8u64) as u32 == (p / 256) % 0x1_0000_0000,
        (p >> 16u64) as u32 == (p / 0x10000) % 0x1_0000_0000,
{
    assert(p & 0xFF == p % 256 && p >> 8u64 == p / 256 && p & 0xFFFF == p % 0x10000 && p >> 16u64 == p / 0x10000 && (
    p as u32) as u64 == p % 0x1_0000_0000 && p >> 32u64 == p / 0x1_0000_0000 && ((p >> 32u64) as u32) as u64 == p
        / 0x1_0000_0000 && ((p >> 8u64) as u32) as u64 == (p / 256) % 0x1_0000_0000 && ((p >> 16u64) as u32) as u64 == (p
        / 0x10000) % 0x1_0000_0000) by (bit_vector);
}

/// Reading the fields of a step's 32-bit extra word with masks and shifts
/// gives its remainders, quotients and bits.
pub proof fn lemma_extra_fields(e: u32)
    ensures
        e & 0xFF == e % 256,
        e >> 10u32 == e / 1024,
        e >> 24u32 == e / 0x100_0000,
        e & 0xFF_FFFF == e % 0x100_0000,
        (e & 1 != 0) == (e % 2 == 1),
        (e & 2 != 0) == ((e / 2) % 2 == 1),
        (e & 4 != 0) == ((e / 4) % 2 == 1),
        (e & 0x100 != 0) == ((e / 256) % 2 == 1),
        (e & 0x200 != 0) == ((e / 512) % 2 == 1),
{
    assert(e & 0xFF == e % 256 && e >> 10u32 == e / 1024 && e >> 24u32 == e / 0x100_0000 && e & 0xFF_FFFF == e
        % 0x100_0000 && (e & 1 != 0) == (e % 2 == 1) && (e & 2 != 0) == ((e / 2) % 2 == 1) && (e & 4 != 0) == ((e / 4)
        % 2 == 1) && (e & 0x100 != 0) == ((e / 256) % 2 == 1) && (e & 0x200 != 0) == ((e / 512) % 2 == 1)) by (bit_vector);
}

/// A 32-bit signed value and its bit pattern determine each other; -2 is
/// the pattern 0xFFFF_FFFE.
pub proof fn lemma_i32_bits(x: i32, u: u32)
    ensures
        x == (x as u32) as i32,
        (x == -2) == ((x as u32) == 0xFFFF_FFFEu32),
        (x as u32 == u) ==> x == u as i32,
{
    assert(x == (x as u32) as i32 && (x == -2i32) == ((x as u32) == 0xFFFF_FFFEu32) && ((x as u32 == u) ==> x == u
        as i32)) by (bit_vector);
}

/// Byte `i` (0 = lowest) of a 64-bit word.
pub open spec fn byte_of(p: u64, i: int) -> u64 {
    (p >> (8 * i) as u64) & 0xFF
}

/// Key `i` of a list of up to eight, or 0 past its end.
pub open spec fn key_or_zero(keys: Seq<u8>, i: int) -> u64 {
    if 0 <= i < keys.len() {
        keys[i] as u64
    } else {
        0
    }
}

/// The word a combo packs its keys into: key `i` in byte `i`.
pub open spec fn combo_param(keys: Seq<u8>) -> u64 {
    key_or_zero(keys, 0) | (key_or_zero(keys, 1) << 8u64) | (key_or_zero(keys, 2) << 16u64) | (key_or_zero(keys, 3)
        << 24u64) | (key_or_zero(keys, 4) << 32u64) | (key_or_zero(keys, 5) << 40u64) | (key_or_zero(keys, 6) << 48u64)
        | (key_or_zero(keys, 7) << 56u64)
}

proof fn lemma_bytes_determine(p: u64, k0: u64, k1: u64, k2: u64, k3: u64, k4: u64, k5: u64, k6: u64, k7: u64)
    requires
        k0 < 256 && k1 < 256 && k2 < 256 && k3 < 256 && k4 < 256 && k5 < 256 && k6 < 256 && k7 < 256,
        (p >> 0u64) & 0xFF == k0,
        (p >> 8u64) & 0xFF == k1,
        (p >> 16u64) & 0xFF == k2,
        (p >> 24u64) & 0xFF == k3,
        (p >> 32u64) & 0xFF == k4,
        (p >> 40u64) & 0xFF == k5,
        (p >> 48u64) & 0xFF == k6,
        (p >> 56u64) & 0xFF == k7,
    ensures
        p == k0 | (k1 << 8u64) | (k2 << 16u64) | (k3 << 24u64) | (k4 << 32u64) | (k5 << 40u64) | (k6 << 48u64) | (k7
            << 56u64),
{
    assert(p == k0 | (k1 << 8u64) | (k2 << 16u64) | (k3 << 24u64) | (k4 << 32u64) | (k5 << 40u64) | (k6 << 48u64) | (
    k7 << 56u64)) by (bit_vector)
        requires
            k0 < 256 && k1 < 256 && k2 < 256 && k3 < 256 && k4 < 256 && k5 < 256 && k6 < 256 && k7 < 256,
            (p >> 0u64) & 0xFF == k0,
            (p >> 8u64) & 0xFF == k1,
            (p >> 16u64) & 0xFF == k2,
            (p >> 24u64) & 0xFF == k3,
            (p >> 32u64) & 0xFF == k4,
            (p >> 40u64) & 0xFF == k5,
            (p >> 48u64) & 0xFF == k6,
            (p >> 56u64) & 0xFF == k7,
    ;
}

/// A word is the packing of its eight bytes.
proof fn lemma_combo_param_of_bytes(p: u64, keys: Seq<u8>)
    requires
        keys.len() <= 8,
        forall|i: int| 0 <= i < 8 ==> byte_of(p, i) == key_or_zero(keys, i),
    ensures
        p == combo_param(keys),
{
    assert(byte_of(p, 0) == key_or_zero(keys, 0));
    assert(byte_of(p, 1) == key_or_zero(keys, 1));
    assert(byte_of(p, 2) == key_or_zero(keys, 2));
    assert(byte_of(p, 3) == key_or_zero(keys, 3));
    assert(byte_of(p, 4) == key_or_zero(keys, 4));
    assert(byte_of(p, 5) == key_or_zero(keys, 5));
    assert(byte_of(p, 6) == key_or_zero(keys, 6));
    assert(byte_of(p, 7) == key_or_zero(keys, 7));
    lemma_bytes_determine(
        p,
        key_or_zero(keys, 0),
        key_or_zero(keys, 1),
        key_or_zero(keys, 2),
        key_or_zero(keys, 3),
        key_or_zero(keys, 4),
        key_or_zero(keys, 5),
        key_or_zero(keys, 6),
        key_or_zero(keys, 7),
    );
}

/// Packs up to eight virtual-key codes, one per byte, first key lowest.
pub fn pack_combo(keys: &[u8]) -> (p: u64)
    requires
        keys@.len() <= 8,
    ensures
        forall|i: int| 0 <= i < keys@.len() ==> byte_of(p, i) == keys@[i],
        forall|i: int| keys@.len() <= i < 8 ==> byte_of(p, i) == 0,
        p == combo_param(keys@),
{
    let mut p: u64 = 0;
    let mut i: usize = 0;
    assert forall|j: int| 0 <= j < 8 implies byte_of(0u64, j) == 0 by {
        let jj = j as u64;
        assert((0u64 >> (8 * jj)) & 0xFF == 0) by (bit_vector);
    }
    while i < keys.len()
        invariant
            keys@.len() <= 8,
            0 <= i <= keys@.len(),
            forall|j: int| 0 <= j < i ==> byte_of(p, j) == keys@[j],
            forall|j: int| i <= j < 8 ==> byte_of(p, j) == 0,
        decreases keys@.len() - i,
    {
        let k = keys[i] as u64;
        let sh = (i as u64) * 8;
        let np = p | (k << sh);
        proof {
            let ii = i as u64;
            assert(byte_of(p, i as int) == 0);
            assert forall|j: int| 0 <= j < 8 implies byte_of(np, j) == if j == i as int {
                k
            } else {
                byte_of(p, j)
            } by {
                let jj = j as u64;
                lemma_byte_or(p, k, ii, jj);
            }
        }
        p = np;
        i = i + 1;
    }
    proof {
        assert forall|i: int| 0 <= i < 8 implies byte_of(p, i) == key_or_zero(keys@, i) by {}
        lemma_combo_param_of_bytes(p, keys@);
    }
    p
}

proof fn lemma_byte_or(p: u64, k: u64, i: u64, j: u64)
    requires
        k < 256,
        i < 8,
        j < 8,
        (p >> (8 * i)) & 0xFF == 0,
    ensures
        ((p | (k << (i * 8))) >> (8 * j)) & 0xFF == if j == i {
            k
        } else {
            (p >> (8 * j)) & 0xFF
        },
{
    assert(((p | (k << (i * 8))) >> (8 * j)) & 0xFF == if j == i {
        k
    } else {
        (p >> (8 * j)) & 0xFF
    }) by (bit_vector)
        requires
            k < 256,
            i < 8,
            j < 8,
            (p >> (8 * i)) & 0xFF == 0,
    ;
}

/// The number of keys a combo step holds: `count`, but at most four.
pub open spec fn combo_len(count: u32) -> int {
    if count < 4 {
        count as int
    } else {
        4
    }
}

/// Unpacks the keys of a combo step: the lowest `min(count, 4)` bytes of
/// `param`, lowest first.
pub fn unpack_combo(param: u64, count: u32) -> (keys: Vec<u8>)
    ensures
        keys@.len() == combo_len(count),
        forall|i: int| 0 <= i < keys@.len() ==> keys@[i] == byte_of(param, i),
{
    let n: usize = if count < 4 {
        count as usize
    } else {
        4
    };
    let mut keys: Vec<u8> = Vec::new();
    let mut i: usize = 0;
    while i < n
        invariant
            n == combo_len(count),
            0 <= i <= n,
            keys@.len() == i,
            forall|j: int| 0 <= j < i ==> keys@[j] == byte_of(param, j),
        decreases n - i,
    {
        let ii = i as u64;
        let b = ((param >> (ii * 8)) & 0xFF) as u8;
        assert(b == byte_of(param, i as int)) by {
            assert((param >> (ii * 8)) & 0xFF < 256) by (bit_vector);
        }
        keys.push(b);
        i = i + 1;
    }
    keys
}

/// Unpacking a packed combo of at most four keys gives back the same keys.
pub proof fn lemma_combo_roundtrip(keys: Seq<u8>, p: u64)
    requires
        keys.len() <= 4,
        forall|i: int| 0 <= i < keys.len() ==> byte_of(p, i) == keys[i],
    ensures
        forall|r: Seq<u8>|
            r.len() == combo_len(keys.len() as u32) && (forall|i: int|
                0 <= i < r.len() ==> r[i] == byte_of(p, i)) ==> r == keys,
{
    assert forall|r: Seq<u8>|
        r.len() == combo_len(keys.len() as u32) && (forall|i: int|
            0 <= i < r.len() ==> r[i] == byte_of(p, i)) implies r == keys by {
        assert(r =~= keys);
    }
}

/// Extra-word flag of a move step: the target is an offset from the cursor.
pub const RELATIVE_FLAG: u32 = 0x0100_0000;

/// Number of move presets offered by the editor.
pub const MOVE_PRESET_COUNT: usize = 5;

/// The move presets: screen centre, then 100 pixels right, left, down, up.
pub open spec fn spec_move_preset(i: int) -> (i32, i32) {
    if i == 0 {
        (-1i32, -1i32)
    } else if i == 1 {
        (100i32, 0i32)
    } else if i == 2 {
        (-100i32, 0i32)
    } else if i == 3 {
        (0i32, 100i32)
    } else {
        (0i32, -100i32)
    }
}

/// The move preset `i`: its target and its label.
pub fn mouse_move_preset(i: usize) -> (r: (i32, i32, &'static str))
    requires
        i < MOVE_PRESET_COUNT,
    ensures
        (r.0, r.1) == spec_move_preset(i as int),
{
    if i == 0 {
        (-1, -1, "居中")
    } else if i == 1 {
        (100, 0, "→")
    } else if i == 2 {
        (-100, 0, "←")
    } else if i == 3 {
        (0, 100, "↓")
    } else {
        (0, -100, "↑")
    }
}

/// Number of combo-key presets.
pub const COMBO_PRESET_COUNT: usize = 14;

/// The keys of combo preset `i`.
pub open spec fn spec_combo_keys(i: int) -> Seq<u8> {
    if i == 0 {
        seq![0x5B, 0x44]
    } else if i == 1 {
        seq![0x5B, 0x45]
    } else if i == 2 {
        seq![0x5B, 0x52]
    } else if i == 3 {
        seq![0x5B, 0x4C]
    } else if i == 4 {
        seq![0x5B, 0x09]
    } else if i == 5 {
        seq![0xA2, 0xA0, 0x1B]
    } else if i == 6 {
        seq![0x5B, 0xA0, 0x53]
    } else if i == 7 {
        seq![0xA2, 0x43]
    } else if i == 8 {
        seq![0xA2, 0x56]
    } else if i == 9 {
        seq![0xA2, 0x41]
    } else if i == 10 {
        seq![0xA2, 0x5A]
    } else if i == 11 {
        seq![0xA2, 0x58]
    } else if i == 12 {
        seq![0xA4, 0x09]
    } else {
        seq![0xA4, 0x73]
    }
}

/// The name of combo preset `i`.
pub open spec fn spec_combo_name(i: int) -> Seq<char> {
    if i == 0 {
        "显示桌面"@
    } else if i == 1 {
        "文件资源管理器"@
    } else if i == 2 {
        "运行"@
    } else if i == 3 {
        "锁定"@
    } else if i == 4 {
        "任务视图"@
    } else if i == 5 {
        "任务管理器"@
    } else if i == 6 {
        "截图工具"@
    } else if i == 7 {
        "复制"@
    } else if i == 8 {
        "粘贴"@
    } else if i == 9 {
        "全选"@
    } else if i == 10 {
        "撤销"@
    } else if i == 11 {
        "剪切"@
    } else if i == 12 {
        "切换窗口"@
    } else {
        "关闭窗口"@
    }
}

/// The key label of combo preset `i`.
pub open spec fn spec_combo_label(i: int) -> Seq<char> {
    if i == 0 {
        "Win + D"@
    } else if i == 1 {
        "Win + E"@
    } else if i == 2 {
        "Win + R"@
    } else if i == 3 {
        "Win + L"@
    } else if i == 4 {
        "Win + Tab"@
    } else if i == 5 {
        "Ctrl + Shift + Esc"@
    } else if i == 6 {
        "Win + Shift + S"@
    } else if i == 7 {
        "Ctrl + C"@
    } else if i == 8 {
        "Ctrl + V"@
    } else if i == 9 {
        "Ctrl + A"@
    } else if i == 10 {
        "Ctrl + Z"@
    } else if i == 11 {
        "Ctrl + X"@
    } else if i == 12 {
        "Alt + Tab"@
    } else {
        "Alt + F4"@
    }
}

/// A combo-key preset: its name, its key label, a description and its keys.
pub struct ComboPreset {
    pub name: &'static str,
    pub keys_label: &'static str,
    pub desc: &'static str,
    pub vks: Vec<u8>,
}

/// Combo preset `i`.
pub fn combo_preset(i: usize) -> (p: ComboPreset)
    requires
        i < COMBO_PRESET_COUNT,
    ensures
        p.vks@ == spec_combo_keys(i as int),
        p.name@ == spec_combo_name(i as int),
        p.keys_label@ == spec_combo_label(i as int),
{
    if i == 0 {
        ComboPreset { name: "显示桌面", keys_label: "Win + D", desc: "最小化所有窗口", vks: vec![0x5B, 0x44] }
    } else if i == 1 {
        ComboPreset { name: "文件资源管理器", keys_label: "Win + E", desc: "打开我的电脑", vks: vec![0x5B, 0x45] }
    } else if i == 2 {
        ComboPreset { name: "运行", keys_label: "Win + R", desc: "打开运行对话框", vks: vec![0x5B, 0x52] }
    } else if i == 3 {
        ComboPreset { name: "锁定", keys_label: "Win + L", desc: "锁定电脑屏幕", vks: vec![0x5B, 0x4C] }
    } else if i == 4 {
        ComboPreset { name: "任务视图", keys_label: "Win + Tab", desc: "查看所有窗口", vks: vec![0x5B, 0x09] }
    } else if i == 5 {
        ComboPreset { name: "任务管理器", keys_label: "Ctrl + Shift + Esc", desc: "打开任务管理器", vks: vec![0xA2, 0xA0, 0x1B] }
    } else if i == 6 {
        ComboPreset { name: "截图工具", keys_label: "Win + Shift + S", desc: "框选区域截图", vks: vec![0x5B, 0xA0, 0x53] }
    } else if i == 7 {
        ComboPreset { name: "复制", keys_label: "Ctrl + C", desc: "复制选中内容", vks: vec![0xA2, 0x43] }
    } else if i == 8 {
        ComboPreset { name: "粘贴", keys_label: "Ctrl + V", desc: "粘贴剪贴板内容", vks: vec![0xA2, 0x56] }
    } else if i == 9 {
        ComboPreset { name: "全选", keys_label: "Ctrl + A", desc: "全选所有内容", vks: vec![0xA2, 0x41] }
    } else if i == 10 {
        ComboPreset { name: "撤销", keys_label: "Ctrl + Z", desc: "撤销上一步操作", vks: vec![0xA2, 0x5A] }
    } else if i == 11 {
        ComboPreset { name: "剪切", keys_label: "Ctrl + X", desc: "剪切选中内容", vks: vec![0xA2, 0x58] }
    } else if i == 12 {
        ComboPreset { name: "切换窗口", keys_label: "Alt + Tab", desc: "切换活动窗口", vks: vec![0xA4, 0x09] }
    } else {
        ComboPreset { name: "关闭窗口", keys_label: "Alt + F4", desc: "关闭当前程序", vks: vec![0xA4, 0x73] }
    }
}

fn bytes_equal(a: &[u8], b: &[u8]) -> (r: bool)
    ensures
        r == (a@ == b@),
{
    if a.len() != b.len() {
        return false;
    }
    let mut i: usize = 0;
    while i < a.len()
        invariant
            a@.len() == b@.len(),
            0 <= i <= a@.len(),
            forall|j: int| 0 <= j < i ==> a@[j] == b@[j],
        decreases a@.len() - i,
    {
        if a[i] != b[i] {
            return false;
        }
        i = i + 1;
    }
    assert(a@ =~= b@);
    true
}

/// The first preset from `i` on whose keys are `keys`; 0 when none is.
pub open spec fn first_preset_from(keys: Seq<u8>, i: int) -> int
    decreases COMBO_PRESET_COUNT - i,
{
    if i < 0 || i >= COMBO_PRESET_COUNT {
        0
    } else if spec_combo_keys(i) == keys {
        i
    } else {
        first_preset_from(keys, i + 1)
    }
}

/// The preset a combo with these keys is shown and edited as: the first
/// preset with the same keys, or preset 0 when no preset has them.
pub open spec fn combo_preset_of(keys: Seq<u8>) -> int {
    first_preset_from(keys, 0)
}

proof fn lemma_first_preset_from(keys: Seq<u8>, i: int)
    requires
        0 <= i <= COMBO_PRESET_COUNT,
    ensures
        (exists|k: int| i <= k < COMBO_PRESET_COUNT && spec_combo_keys(k) == keys) ==> {
            let r = first_preset_from(keys, i);
            &&& i <= r < COMBO_PRESET_COUNT
            &&& spec_combo_keys(r) == keys
            &&& forall|j: int| i <= j < r ==> spec_combo_keys(j) != keys
        },
        (forall|k: int| i <= k < COMBO_PRESET_COUNT ==> spec_combo_keys(k) != keys) ==> first_preset_from(keys, i) == 0,
    decreases COMBO_PRESET_COUNT - i,
{
    if i < COMBO_PRESET_COUNT {
        lemma_first_preset_from(keys, i + 1);
        if spec_combo_keys(i) != keys {
            if exists|k: int| i <= k < COMBO_PRESET_COUNT && spec_combo_keys(k) == keys {
                let k = choose|k: int| i <= k < COMBO_PRESET_COUNT && spec_combo_keys(k) == keys;
                assert(i + 1 <= k);
            }
        }
    }
}

/// The preset a combo is shown as is the first preset with its keys when
/// there is one, and preset 0 otherwise.
pub proof fn lemma_combo_preset_of(keys: Seq<u8>)
    ensures
        0 <= combo_preset_of(keys) < COMBO_PRESET_COUNT,
        (exists|k: int| 0 <= k < COMBO_PRESET_COUNT && spec_combo_keys(k) == keys) ==> spec_combo_keys(
            combo_preset_of(keys),
        ) == keys && forall|j: int| 0 <= j < combo_preset_of(keys) ==> spec_combo_keys(j) != keys,
        (forall|k: int| 0 <= k < COMBO_PRESET_COUNT ==> spec_combo_keys(k) != keys) ==> combo_preset_of(keys) == 0,
{
    lemma_first_preset_from(keys, 0);
}

/// The preset a combo step with `param` and key count `extra` is shown and
/// edited as: the first preset with its keys, or preset 0 when none has
/// them (see [`combo_preset_of`]).
pub fn find_combo_preset(param: u64, extra: u32) -> (r: Option<usize>)
    ensures
        r == Some(combo_preset_of(combo_keys_of(param, extra)) as usize),
        0 <= combo_preset_of(combo_keys_of(param, extra)) < COMBO_PRESET_COUNT,
{
    let keys = unpack_combo(param, extra);
    proof {
        assert(keys@ =~= combo_keys_of(param, extra));
        lemma_combo_preset_of(keys@);
    }
    let mut i: usize = 0;
    while i < COMBO_PRESET_COUNT
        invariant
            0 <= i <= COMBO_PRESET_COUNT,
            keys@ == combo_keys_of(param, extra),
            first_preset_from(keys@, 0) == first_preset_from(keys@, i as int),
        decreases COMBO_PRESET_COUNT - i,
    {
        let p = combo_preset(i);
        if bytes_equal(p.vks.as_slice(), keys.as_slice()) {
            return Some(i);
        }
        i = i + 1;
    }
    Some(0)
}

/// The keys a combo step with `param` and key count `count` holds.
pub open spec fn combo_keys_of(param: u64, count: u32) -> Seq<u8> {
    Seq::new(combo_len(count) as nat, |i: int| byte_of(param, i) as u8)
}

/// Wait-key option bit: a wrong key stops the task.
pub const WAITKEY_TERMINATE: u32 = 1;

/// Wait-key option bit: show a prompt while waiting.
pub const WAITKEY_POPUP: u32 = 2;

/// Whether a wait-key step stops the task when another key is pressed.
pub fn waitkey_terminate_on_wrong(extra: u32) -> (r: bool)
    ensures
        r == (extra & WAITKEY_TERMINATE != 0),
{
    extra & WAITKEY_TERMINATE != 0
}

/// Whether a wait-key step shows a prompt.
pub fn waitkey_show_popup(extra: u32) -> (r: bool)
    ensures
        r == (extra & WAITKEY_POPUP != 0),
{
    extra & WAITKEY_POPUP != 0
}

/// Wait-input option bit: copy the typed text to the clipboard.
pub const WAITINPUT_COPY: u32 = 1;

/// Wait-input option bit: a mismatch does not stop the task.
pub const WAITINPUT_IGNORE_FAIL: u32 = 2;

/// Wait-input option bit: the expected text is a regular expression.
pub const WAITINPUT_REGEX: u32 = 4;

/// Whether a wait-input step copies the typed text.
pub fn waitinput_copy(extra: u32) -> (r: bool)
    ensures
        r == (extra & WAITINPUT_COPY != 0),
{
    extra & WAITINPUT_COPY != 0
}

/// Whether a wait-input step ignores a mismatch.
pub fn waitinput_ignore_fail(extra: u32) -> (r: bool)
    ensures
        r == (extra & WAITINPUT_IGNORE_FAIL != 0),
{
    extra & WAITINPUT_IGNORE_FAIL != 0
}

/// Whether a wait-input step matches by regular expression.
pub fn waitinput_regex(extra: u32) -> (r: bool)
    ensures
        r == (extra & WAITINPUT_REGEX != 0),
{
    extra & WAITINPUT_REGEX != 0
}

} // verus!
