//! The decision record a scanner state returns for a look-ahead window, and
//! the stack action it carries.

use vstd::prelude::*;

verus! {

/// The context tag threaded through to delegated command parsing; it names the
/// end trigger that nested parsing should pop on. The `case` automaton always
/// hands its collaborators this marker, which stands for "no end trigger byte".
pub const CASE_END_TRIGGER: u16 = 0x100;

/// Color class for the bytes a state emits as plain text.
#[derive(Clone, Copy, PartialEq, Eq, Structural, Debug)]
pub enum ColorClass {
    /// Ordinary text.
    Normal,
    /// A reserved word.
    Keyword,
}

/// The scanner states of the `case` automaton, as they appear inside stack
/// actions: the selector-expression scanner, the arm-pattern/terminator
/// scanner, and the arm-body delegator.
#[derive(Clone, Copy, PartialEq, Eq, Structural, Debug)]
pub enum StateTag {
    /// Scans for the keyword `in` ending the selector expression.
    Selector,
    /// Scans for `)` opening an arm, or the terminator word `esac`.
    Body,
    /// Scans an arm's body for `;;`, or an early `esac`.
    Arm,
}

/// The literal byte sequences a decision may inject into the output stream in
/// place of skipped input. The automaton's one corrective rewrite inserts a
/// missing case-arm terminator.
#[derive(Clone, Copy, PartialEq, Eq, Structural, Debug)]
pub enum InsertLit {
    /// The three bytes `;; `: semicolon, semicolon, space.
    ArmTerminator,
}

impl InsertLit {
    /// The bytes this literal stands for.
    pub open spec fn bytes_spec(self) -> Seq<u8> {
        match self {
            InsertLit::ArmTerminator => seq![
                crate::bytes::SEMICOLON,
                crate::bytes::SEMICOLON,
                crate::bytes::SPACE,
            ],
        }
    }

    /// The literal, as bytes.
    pub fn bytes(self) -> (v: Vec<u8>)
        ensures
            v@ == self.bytes_spec(),
    {
        let mut v: Vec<u8> = Vec::new();
        v.push(crate::bytes::SEMICOLON);
        v.push(crate::bytes::SEMICOLON);
        v.push(crate::bytes::SPACE);
        proof {
            assert(v@ =~= self.bytes_spec());
        }
        v
    }
}

/// How the stack of scanner states changes after a decision.
#[derive(Clone, Copy, PartialEq, Eq, Structural, Debug)]
pub enum StackAction {
    /// Remain in the same state; used when no decision can be made yet and a
    /// longer window is requested.
    Stay,
    /// Discard the current state; the named state becomes the new top.
    Replace(StateTag),
    /// Suspend the current state beneath the named state.
    Push(StateTag),
    /// Discard the top state; the state beneath resumes with the same
    /// remaining window, including any bytes this decision left un-retired.
    Pop,
}

/// A state's verdict for one window: `emit_len` leading bytes are copied to
/// the output under the state's color; the `skip_len` bytes after them are
/// replaced by `insert` when it is present, and passed through unchanged when
/// it is not; then the stack action executes. The cursor retires
/// `emit_len + skip_len` bytes.
#[derive(Clone, Copy, PartialEq, Eq, Debug)]
pub struct Decision {
    /// Leading bytes copied verbatim to the output.
    pub emit_len: usize,
    /// Bytes after the emitted ones that this decision retires.
    pub skip_len: usize,
    /// Corrective bytes written in place of the skipped ones.
    pub insert: Option<InsertLit>,
    /// How the state stack changes.
    pub action: StackAction,
}

/// The decision that emits `pre` bytes as plain text and stays, asking the
/// engine for a longer window before retrying.
pub open spec fn flush_spec(pre: usize) -> Decision {
    Decision { emit_len: pre, skip_len: 0, insert: None, action: StackAction::Stay }
}

/// Emit `pre` bytes and stay.
#[verifier::when_used_as_spec(flush_spec)]
pub fn flush(pre: usize) -> (d: Decision)
    ensures
        d == flush_spec(pre),
{
    Decision { emit_len: pre, skip_len: 0, insert: None, action: StackAction::Stay }
}

/// What a state asks of its caller for a given window: a finished decision,
/// or a delegation to one of the surrounding tool's collaborators.
#[derive(Clone, Copy, PartialEq, Eq, Debug)]
pub enum Verdict {
    /// A complete decision; the engine applies it as it stands.
    Done(Decision),
    /// Consult the quoting/command classifier on the byte at `offset`. Should
    /// the classifier decline, the state asks to flush `otherwise` bytes and
    /// stay, exactly as `flush(otherwise)` would.
    Classify { end_trigger: u16, offset: usize, otherwise: usize },
    /// Hand the window at `offset` to the reserved-word-or-command
    /// dispatcher, which always produces its own decision.
    Dispatch { end_trigger: u16, offset: usize },
}

} // verus!
