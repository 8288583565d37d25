//! The command codec: serializes the abstract motion command sequence into
//! the textual machine dialect, one line per command.
//!
//! Rendering is a pure function of the command sequence — the contract pins
//! the output bytes exactly, so the same sequence always yields
//! byte-identical output. Coordinates are rendered in millimeters with six
//! decimal places, which represents the nanometer model exactly.

use vstd::prelude::*;

use crate::toolpath::MotionCommand;

verus! {

/// Largest magnitude a value reaching the codec may have.
pub const MAX_CODEC_VALUE: i64 = 1_000_000_000_000_000;

/// The codec's failure: a command holds a value outside the representable
/// coordinate range.
#[derive(Clone, Copy, PartialEq, Eq, Structural, Debug)]
pub enum CodecError {
    InvalidCoordinate { index: usize },
}

/// The decimal digits of `v`, most significant first.
pub open spec fn dec_digits(v: nat) -> Seq<u8>
    decreases v,
{
    if v < 10 {
        seq![(48 + v) as u8]
    } else {
        dec_digits(v / 10).push((48 + v % 10) as u8)
    }
}

/// A nonnegative value below one million as exactly six zero-padded digits.
pub open spec fn frac6(f: int) -> Seq<u8> {
    dec_digits((1_000_000 + f) as nat).drop_first()
}

/// A coordinate in nanometers rendered as signed millimeters with six
/// decimal places.
pub open spec fn render_coord(nm: int) -> Seq<u8> {
    if nm < 0 {
        seq![45u8] + render_unsigned_coord(-nm)
    } else {
        render_unsigned_coord(nm)
    }
}

/// A nonnegative coordinate in nanometers as millimeters with six decimals.
pub open spec fn render_unsigned_coord(nm: int) -> Seq<u8> {
    dec_digits((nm / 1_000_000) as nat) + seq![46u8] + frac6(nm % 1_000_000)
}

/// A plain signed integer.
pub open spec fn render_int(v: int) -> Seq<u8> {
    if v < 0 {
        seq![45u8] + dec_digits((-v) as nat)
    } else {
        dec_digits(v as nat)
    }
}

/// The one line a command renders to.
pub open spec fn render_cmd(c: MotionCommand) -> Seq<u8> {
    match c {
        MotionCommand::RapidMove { target } => seq![71u8, 48, 32, 88] + render_coord(
            target.x as int,
        ) + seq![32u8, 89] + render_coord(target.y as int) + seq![10u8],
        MotionCommand::CutMove { target, depth, feed } => seq![71u8, 49, 32, 88] + render_coord(
            target.x as int,
        ) + seq![32u8, 89] + render_coord(target.y as int) + (match depth {
            Some(z) => seq![32u8, 90] + render_coord(z as int),
            None => Seq::empty(),
        }) + (match feed {
            Some(f) => seq![32u8, 70] + render_coord(f as int),
            None => Seq::empty(),
        }) + seq![10u8],
        MotionCommand::SetToolState { on, level } => if on {
            seq![77u8, 51, 32, 83] + render_int(level as int) + seq![10u8]
        } else {
            seq![77u8, 53, 10]
        },
        MotionCommand::Comment { text } => seq![59u8, 32] + text@ + seq![10u8],
    }
}

/// The whole output: each command's line, in order.
pub open spec fn render_all(cmds: Seq<MotionCommand>) -> Seq<u8>
    decreases cmds.len(),
{
    if cmds.len() == 0 {
        Seq::empty()
    } else {
        render_all(cmds.drop_last()) + render_cmd(cmds.last())
    }
}

/// Whether every value in the command is in the codec's range.
pub open spec fn cmd_ok(c: MotionCommand) -> bool {
    match c {
        MotionCommand::RapidMove { target } => -MAX_CODEC_VALUE <= target.x <= MAX_CODEC_VALUE
            && -MAX_CODEC_VALUE <= target.y <= MAX_CODEC_VALUE,
        MotionCommand::CutMove { target, depth, feed } => {
            &&& -MAX_CODEC_VALUE <= target.x <= MAX_CODEC_VALUE
            &&& -MAX_CODEC_VALUE <= target.y <= MAX_CODEC_VALUE
            &&& (match depth {
                Some(z) => -MAX_CODEC_VALUE <= z <= MAX_CODEC_VALUE,
                None => true,
            })
            &&& (match feed {
                Some(f) => -MAX_CODEC_VALUE <= f <= MAX_CODEC_VALUE,
                None => true,
            })
        },
        MotionCommand::SetToolState { level, .. } => -MAX_CODEC_VALUE <= level <= MAX_CODEC_VALUE,
        MotionCommand::Comment { .. } => true,
    }
}

/// Rendered digits parse back to the value they came from: the textual
/// round trip of the number system is exact.
pub proof fn lemma_digits_round_trip(v: nat)
    ensures
        crate::units::all_digits(dec_digits(v)),
        crate::units::digits_val(dec_digits(v)) == v,
    decreases v,
{
    if v < 10 {
        assert(dec_digits(v) =~= seq![(48 + v) as u8]);
        assert(dec_digits(v).drop_last() =~= Seq::<u8>::empty());
        assert(crate::units::digits_val(dec_digits(v)) == crate::units::digits_val(
            Seq::<u8>::empty(),
        ) * 10 + ((48 + v) as u8 - 48));
        assert(crate::units::is_digit(dec_digits(v)[0]));
    } else {
        lemma_digits_round_trip(v / 10);
        crate::units::lemma_digits_val_push(dec_digits(v / 10), (48 + v % 10) as u8);
        assert forall|i: int| 0 <= i < dec_digits(v).len() implies crate::units::is_digit(
            #[trigger] dec_digits(v)[i],
        ) by {
            if i < dec_digits(v / 10).len() {
                assert(dec_digits(v)[i] == dec_digits(v / 10)[i]);
            }
        }
    }
}

/// Appends the decimal digits of `v`.
fn push_digits(out: &mut Vec<u8>, v: u64)
    ensures
        final(out)@ == old(out)@ + dec_digits(v as nat),
    decreases v,
{
    if v < 10 {
        out.push(48 + v as u8);
        proof {
            assert(final(out)@ =~= old(out)@ + dec_digits(v as nat));
        }
    } else {
        let ghost pre = out@;
        push_digits(out, v / 10);
        out.push(48 + (v % 10) as u8);
        proof {
            assert(final(out)@ =~= pre + dec_digits(v as nat));
        }
    }
}

/// Appends a signed integer.
pub fn push_int(out: &mut Vec<u8>, v: i64)
    requires
        -MAX_CODEC_VALUE <= v <= MAX_CODEC_VALUE,
    ensures
        final(out)@ == old(out)@ + render_int(v as int),
{
    let ghost pre = out@;
    if v < 0 {
        out.push(45);
        push_digits(out, (-v) as u64);
        proof {
            assert(final(out)@ =~= pre + render_int(v as int));
        }
    } else {
        push_digits(out, v as u64);
    }
}

/// Appends a coordinate in millimeters with six decimals.
pub fn push_coord(out: &mut Vec<u8>, nm: i64)
    requires
        -MAX_CODEC_VALUE <= nm <= MAX_CODEC_VALUE,
    ensures
        final(out)@ == old(out)@ + render_coord(nm as int),
{
    let ghost pre = out@;
    let v: i64 = if nm < 0 {
        out.push(45);
        -nm
    } else {
        nm
    };
    push_digits(out, (v / 1_000_000) as u64);
    out.push(46);
    let frac = v % 1_000_000;
    let mut padded: Vec<u8> = Vec::new();
    push_digits(&mut padded, (1_000_000 + frac) as u64);
    let mut q: usize = 1;
    proof {
        assert(padded@.subrange(1, 1int) =~= Seq::<u8>::empty());
    }
    while q < padded.len()
        invariant
            1 <= q <= padded@.len(),
            padded@ == dec_digits((1_000_000 + (v as int) % 1_000_000) as nat),
            out@ == pre + (if nm < 0 {
                seq![45u8]
            } else {
                Seq::<u8>::empty()
            }) + dec_digits(((v as int) / 1_000_000) as nat) + seq![46u8] + padded@.subrange(
                1,
                q as int,
            ),
        decreases padded@.len() - q,
    {
        let b = padded[q];
        out.push(b);
        proof {
            assert(padded@.subrange(1, q as int + 1) =~= padded@.subrange(1, q as int).push(b));
            assert(out@ =~= pre + (if nm < 0 {
                seq![45u8]
            } else {
                Seq::<u8>::empty()
            }) + dec_digits(((v as int) / 1_000_000) as nat) + seq![46u8] + padded@.subrange(
                1,
                q as int + 1,
            ));
        }
        q = q + 1;
    }
    proof {
        assert(padded@.subrange(1, padded@.len() as int) =~= padded@.drop_first());
        assert(out@ =~= pre + render_coord(nm as int));
    }
}

/// Appends a run of literal bytes.
pub fn push_bytes(out: &mut Vec<u8>, bytes: &[u8])
    ensures
        final(out)@ == old(out)@ + bytes@,
{
    let ghost pre = out@;
    let mut i: usize = 0;
    proof {
        assert(out@ =~= pre + bytes@.subrange(0, 0));
    }
    while i < bytes.len()
        invariant
            0 <= i <= bytes@.len(),
            out@ == pre + bytes@.subrange(0, i as int),
        decreases bytes@.len() - i,
    {
        let b = bytes[i];
        out.push(b);
        proof {
            assert(bytes@.subrange(0, i as int + 1) =~= bytes@.subrange(0, i as int).push(b));
            assert(out@ =~= pre + bytes@.subrange(0, i as int + 1));
        }
        i = i + 1;
    }
    proof {
        assert(bytes@.subrange(0, bytes@.len() as int) =~= bytes@);
    }
}

/// Appends one literal byte pair.
fn push2(out: &mut Vec<u8>, a: u8, b: u8)
    ensures
        final(out)@ == old(out)@ + seq![a, b],
{
    let ghost pre = out@;
    out.push(a);
    out.push(b);
    proof {
        assert(final(out)@ =~= pre + seq![a, b]);
    }
}

/// Renders one command as its line.
#[verifier::rlimit(30)]
fn push_cmd(out: &mut Vec<u8>, c: &MotionCommand)
    requires
        cmd_ok(*c),
    ensures
        final(out)@ == old(out)@ + render_cmd(*c),
{
    let ghost pre = out@;
    match c {
        MotionCommand::RapidMove { target } => {
            push2(out, 71, 48);
            push2(out, 32, 88);
            push_coord(out, target.x);
            push2(out, 32, 89);
            push_coord(out, target.y);
            out.push(10);
            proof {
                assert(final(out)@ =~= pre + render_cmd(*c));
            }
        },
        MotionCommand::CutMove { target, depth, feed } => {
            push2(out, 71, 49);
            push2(out, 32, 88);
            push_coord(out, target.x);
            push2(out, 32, 89);
            push_coord(out, target.y);
            match depth {
                Some(z) => {
                    push2(out, 32, 90);
                    push_coord(out, *z);
                },
                None => {},
            }
            match feed {
                Some(f) => {
                    push2(out, 32, 70);
                    push_coord(out, *f);
                },
                None => {},
            }
            out.push(10);
            proof {
                assert(final(out)@ =~= pre + render_cmd(*c));
            }
        },
        MotionCommand::SetToolState { on, level } => {
            if *on {
                push2(out, 77, 51);
                push2(out, 32, 83);
                push_int(out, *level);
                out.push(10);
            } else {
                push2(out, 77, 53);
                out.push(10);
            }
            proof {
                assert(final(out)@ =~= pre + render_cmd(*c));
            }
        },
        MotionCommand::Comment { text } => {
            push2(out, 59, 32);
            let mut t: usize = 0;
            proof {
                assert(out@ =~= pre + seq![59u8, 32] + text@.subrange(0, 0));
            }
            while t < text.len()
                invariant
                    0 <= t <= text@.len(),
                    out@ == pre + seq![59u8, 32] + text@.subrange(0, t as int),
                decreases text@.len() - t,
            {
                let b = text[t];
                out.push(b);
                proof {
                    assert(text@.subrange(0, t as int + 1) =~= text@.subrange(0, t as int).push(b));
                    assert(out@ =~= pre + seq![59u8, 32] + text@.subrange(0, t as int + 1));
                }
                t = t + 1;
            }
            out.push(10);
            proof {
                assert(text@.subrange(0, text@.len() as int) =~= text@);
                assert(final(out)@ =~= pre + render_cmd(*c));
            }
        },
    }
}

/// An ordered sequence of motion commands bound for one output file.
#[derive(Clone, Debug)]
pub struct GCodeFile {
    pub commands: Vec<MotionCommand>,
}

impl GCodeFile {
    /// Wraps a finished command sequence.
    pub fn new(commands: Vec<MotionCommand>) -> (r: GCodeFile)
        ensures
            r.commands@ == commands@,
    {
        GCodeFile { commands }
    }

    /// Serializes the command sequence to the textual dialect, failing with
    /// `InvalidCoordinate` at the first command holding a value outside the
    /// representable range.
    pub fn to_bytes(&self) -> (r: Result<Vec<u8>, CodecError>)
        ensures
            (forall|i: int| 0 <= i < self.commands@.len() ==> cmd_ok(#[trigger] self.commands@[i]))
                ==> (r matches Ok(out) && out@ == render_all(self.commands@)),
            r matches Err(e) ==> {
                let idx = e->InvalidCoordinate_index as int;
                &&& 0 <= idx < self.commands@.len()
                &&& !cmd_ok(self.commands@[idx])
                &&& forall|i: int| 0 <= i < idx ==> cmd_ok(#[trigger] self.commands@[i])
            },
    {
        let mut out: Vec<u8> = Vec::new();
        let mut i: usize = 0;
        proof {
            assert(out@ =~= render_all(self.commands@.subrange(0, 0)));
        }
        while i < self.commands.len()
            invariant
                0 <= i <= self.commands@.len(),
                out@ == render_all(self.commands@.subrange(0, i as int)),
                forall|k: int| 0 <= k < i ==> cmd_ok(#[trigger] self.commands@[k]),
            decreases self.commands@.len() - i,
        {
            let ghost prefix1 = self.commands@.subrange(0, i as int + 1);
            proof {
                assert(prefix1.drop_last() =~= self.commands@.subrange(0, i as int));
                assert(prefix1.last() == self.commands@[i as int]);
            }
            if !cmd_ok_exec(&self.commands[i]) {
                return Err(CodecError::InvalidCoordinate { index: i });
            }
            push_cmd(&mut out, &self.commands[i]);
            i = i + 1;
        }
        proof {
            assert(self.commands@.subrange(0, self.commands@.len() as int) =~= self.commands@);
        }
        Ok(out)
    }
}

/// Whether every value in the command is in the codec's range.
pub fn cmd_ok_exec(c: &MotionCommand) -> (r: bool)
    ensures
        r == cmd_ok(*c),
{
    match c {
        MotionCommand::RapidMove { target } => target.x >= -MAX_CODEC_VALUE && target.x
            <= MAX_CODEC_VALUE && target.y >= -MAX_CODEC_VALUE && target.y <= MAX_CODEC_VALUE,
        MotionCommand::CutMove { target, depth, feed } => {
            let d_ok = match depth {
                Some(z) => *z >= -MAX_CODEC_VALUE && *z <= MAX_CODEC_VALUE,
                None => true,
            };
            let f_ok = match feed {
                Some(f) => *f >= -MAX_CODEC_VALUE && *f <= MAX_CODEC_VALUE,
                None => true,
            };
            target.x >= -MAX_CODEC_VALUE && target.x <= MAX_CODEC_VALUE && target.y
                >= -MAX_CODEC_VALUE && target.y <= MAX_CODEC_VALUE && d_ok && f_ok
        },
        MotionCommand::SetToolState { level, .. } => *level >= -MAX_CODEC_VALUE && *level
            <= MAX_CODEC_VALUE,
        MotionCommand::Comment { .. } => true,
    }
}

} // verus!
