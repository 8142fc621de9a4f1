//! The bring-up handshake of the panel's shift registers, as a script of pin
//! levels and delays.
//!
//! After a settling time, a fixed 16-bit control word is clocked out eleven
//! times, most significant bit first, and then a twelfth time during which
//! the latch line is raised once bit 4 has been clocked. The latch line is
//! then lowered and the blanking line is pulsed low.

use crate::cosmic_unicorn::CosmicUnicorn;
use vstd::prelude::*;

verus! {

/// The control word that the handshake sends.
pub const CONTROL_WORD: u16 = 0b1111111111001110;

/// The number of bits of the control word.
pub const WORD_BITS: usize = 16;

/// The number of times the control word is sent without a latch.
pub const PLAIN_WORDS: usize = 11;

/// The bit of the last word after which the latch line is raised.
pub const LATCH_AFTER_BIT: usize = 4;

/// The delay before and after each clock edge, in microseconds.
pub const EDGE_DELAY_US: u32 = 10;

/// The settling time before the first bit, in milliseconds.
pub const SETTLE_DELAY_MS: u32 = 100;

/// One step of the handshake: a level for one line, or a pause.
#[derive(Clone, Copy, Debug, PartialEq, Eq, Structural)]
pub enum PinOp {
    /// Drive the column data line high (`true`) or low.
    Data(bool),
    /// Drive the column clock line high (`true`) or low.
    Clock(bool),
    /// Drive the column latch line high (`true`) or low.
    Latch(bool),
    /// Drive the column blanking line high (`true`) or low.
    Blank(bool),
    /// Wait for the given number of microseconds.
    DelayUs(u32),
    /// Wait for the given number of milliseconds.
    DelayMs(u32),
}

/// The level of the data line for the bit sent at place `index` of a word:
/// the word goes out most significant bit first.
pub open spec fn control_bit(index: int) -> bool {
    CONTROL_WORD & (1u16 << ((WORD_BITS - 1 - index) as u16)) != 0
}

/// The steps that clock one bit out: the data level, then a clock pulse with
/// a pause before each edge.
pub open spec fn send_bit(level: bool) -> Seq<PinOp> {
    seq![
        PinOp::Data(level),
        PinOp::DelayUs(EDGE_DELAY_US),
        PinOp::Clock(true),
        PinOp::DelayUs(EDGE_DELAY_US),
        PinOp::Clock(false),
    ]
}

/// The steps that follow bit `index` of a word: raising the latch line, in a
/// latched word after the latch bit, and nothing otherwise.
pub open spec fn latch_step(index: int, latched: bool) -> Seq<PinOp> {
    if latched && index == LATCH_AFTER_BIT {
        seq![PinOp::Latch(true)]
    } else {
        Seq::empty()
    }
}

/// The steps that clock out the first `count` bits of the control word.
pub open spec fn send_bits(count: nat, latched: bool) -> Seq<PinOp>
    decreases count,
{
    if count == 0 {
        Seq::empty()
    } else {
        send_bits((count - 1) as nat, latched) + send_bit(control_bit(count - 1)) + latch_step(
            count - 1,
            latched,
        )
    }
}

/// The steps that clock the whole control word out `count` times, without a
/// latch.
pub open spec fn send_words(count: nat) -> Seq<PinOp>
    decreases count,
{
    if count == 0 {
        Seq::empty()
    } else {
        send_words((count - 1) as nat) + send_bits(WORD_BITS as nat, false)
    }
}

/// The steps that end the handshake: the latch line goes low, and the
/// blanking line is pulsed low.
pub open spec fn finish() -> Seq<PinOp> {
    seq![
        PinOp::Latch(false),
        PinOp::Blank(false),
        PinOp::DelayUs(EDGE_DELAY_US),
        PinOp::Blank(true),
    ]
}

/// The whole handshake.
pub open spec fn handshake() -> Seq<PinOp> {
    seq![PinOp::DelayMs(SETTLE_DELAY_MS)] + send_words(PLAIN_WORDS as nat) + send_bits(
        WORD_BITS as nat,
        true,
    ) + finish()
}

/// The data levels of one word, in the order sent: ten high, two low, three
/// high, one low.
pub proof fn lemma_control_bits(index: int)
    requires
        0 <= index < WORD_BITS,
    ensures
        control_bit(index) == (index < 10 || (12 <= index < 15)),
{
    let shift = (WORD_BITS - 1 - index) as u16;
    assert(0 <= shift < 16);
    assert((0b1111111111001110u16 & (1u16 << shift) != 0) == (shift >= 6 || (1 <= shift && shift
        <= 3))) by (bit_vector)
        requires
            0 <= shift < 16,
    ;
}

/// The number of steps that clock out the first `count` bits of a word: five
/// for each bit, and one more once the latch has been raised.
pub proof fn lemma_send_bits_len(count: nat, latched: bool)
    ensures
        send_bits(count, latched).len() == 5 * count + if latched && count > LATCH_AFTER_BIT {
            1int
        } else {
            0int
        },
    decreases count,
{
    if count > 0 {
        lemma_send_bits_len((count - 1) as nat, latched);
    }
}

/// The number of steps that clock `count` plain words out: eighty for each.
pub proof fn lemma_send_words_len(count: nat)
    ensures
        send_words(count).len() == 80 * count,
    decreases count,
{
    if count > 0 {
        lemma_send_words_len((count - 1) as nat);
        lemma_send_bits_len(WORD_BITS as nat, false);
    }
}

/// The handshake has 966 steps: the settling pause, eleven plain words of
/// eighty steps, the latched word of eighty-one, and four steps to finish.
pub proof fn lemma_handshake_len()
    ensures
        handshake().len() == 966,
{
    lemma_send_words_len(PLAIN_WORDS as nat);
    lemma_send_bits_len(WORD_BITS as nat, true);
}

/// Appends the steps that clock one bit of the control word out.
fn push_bit(script: &mut Vec<PinOp>, index: usize)
    requires
        index < WORD_BITS,
    ensures
        final(script)@ == old(script)@ + send_bit(control_bit(index as int)),
{
    let level: bool = CONTROL_WORD & (1u16 << ((WORD_BITS - 1 - index) as u16)) != 0;
    script.push(PinOp::Data(level));
    script.push(PinOp::DelayUs(EDGE_DELAY_US));
    script.push(PinOp::Clock(true));
    script.push(PinOp::DelayUs(EDGE_DELAY_US));
    script.push(PinOp::Clock(false));
    assert(script@ =~= old(script)@ + send_bit(control_bit(index as int)));
}

impl CosmicUnicorn {
    /// The bring-up handshake, step by step, for the caller to carry out in
    /// order on the lines of the panel. The lines start at their idle levels:
    /// clock, data and latch low, blanking and the four row-select lines high.
    pub fn init_pins() -> (script: Vec<PinOp>)
        ensures
            script@ == handshake(),
    {
        let mut script: Vec<PinOp> = Vec::new();
        script.push(PinOp::DelayMs(SETTLE_DELAY_MS));
        let ghost settle = seq![PinOp::DelayMs(SETTLE_DELAY_MS)];
        assert(script@ =~= settle + send_words(0));
        let mut word: usize = 0;
        while word < PLAIN_WORDS
            invariant
                word <= PLAIN_WORDS,
                settle == seq![PinOp::DelayMs(SETTLE_DELAY_MS)],
                script@ == settle + send_words(word as nat),
            decreases PLAIN_WORDS - word,
        {
            let ghost sent = script@;
            assert(script@ =~= sent + send_bits(0, false));
            let mut index: usize = 0;
            while index < WORD_BITS
                invariant
                    index <= WORD_BITS,
                    script@ == sent + send_bits(index as nat, false),
                decreases WORD_BITS - index,
            {
                push_bit(&mut script, index);
                assert(script@ =~= sent + send_bits((index + 1) as nat, false));
                index += 1;
            }
            assert(script@ =~= settle + send_words((word + 1) as nat));
            word += 1;
        }
        let ghost sent = script@;
        assert(script@ =~= sent + send_bits(0, true));
        let mut index: usize = 0;
        while index < WORD_BITS
            invariant
                index <= WORD_BITS,
                script@ == sent + send_bits(index as nat, true),
            decreases WORD_BITS - index,
        {
            push_bit(&mut script, index);
            if index == LATCH_AFTER_BIT {
                script.push(PinOp::Latch(true));
            }
            assert(script@ =~= sent + send_bits((index + 1) as nat, true));
            index += 1;
        }
        script.push(PinOp::Latch(false));
        script.push(PinOp::Blank(false));
        script.push(PinOp::DelayUs(EDGE_DELAY_US));
        script.push(PinOp::Blank(true));
        assert(script@ =~= handshake());
        script
    }
    }

} // verus!
