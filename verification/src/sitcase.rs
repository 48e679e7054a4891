//! The three cooperating scanner states of the `case ... in ... esac`
//! construct: the selector-expression scanner ([`SitIn`]), the
//! arm-pattern/terminator scanner ([`SitCase`]), and the arm-body delegator
//! ([`SitCaseArm`]).
//!
//! Every state obeys the end-of-window discipline: a candidate keyword whose
//! word run touches the end of the window is undecidable — the state emits
//! only the bytes strictly before the candidate and stays — unless the run
//! starts the window and the window can no longer grow.

use vstd::prelude::*;

use crate::bytes::is_whitespace_byte;
use crate::bytes::is_word;
use crate::bytes::is_word_byte;
use crate::bytes::is_whitespace;
use crate::bytes::lemma_word_len_at;
use crate::bytes::word_len_at;
use crate::bytes::word_run_len;
use crate::bytes::AMPERSAND;
use crate::bytes::GREATER_THAN;
use crate::bytes::LESS_THAN;
use crate::bytes::PIPE;
use crate::bytes::RIGHT_PAREN;
use crate::bytes::SEMICOLON;
use crate::decision::flush;
use crate::decision::flush_spec;
use crate::decision::ColorClass;
use crate::decision::Decision;
use crate::decision::InsertLit;
use crate::decision::StackAction;
use crate::decision::StateTag;
use crate::decision::Verdict;
use crate::decision::CASE_END_TRIGGER;

verus! {

/// The keyword `in`, as bytes.
pub open spec fn keyword_in() -> Seq<u8> {
    seq![105u8, 110u8]
}

/// The keyword `esac`, as bytes.
pub open spec fn keyword_esac() -> Seq<u8> {
    seq![101u8, 115u8, 97u8, 99u8]
}

/// The selector state's verdict when the first word byte of the window `s`
/// stands at offset `i`.
///
/// The word run at `i` is undecidable while it touches the window's end
/// without being anchored there (`i > 0`) on a final window: the state emits
/// the bytes before `i` and stays. A decided word equal to `in` emits
/// everything through the word under the keyword color and replaces this
/// state with the body state. Any other word is handed to the quoting
/// classifier, with a whole-word flush as the fallback.
pub open spec fn selector_at(s: Seq<u8>, lengthenable: bool, i: int) -> Verdict {
    let l = word_len_at(s, i);
    if i + l == s.len() && (i > 0 || lengthenable) {
        Verdict::Done(flush_spec(i as usize))
    } else if s.subrange(i, i + l) == keyword_in() {
        Verdict::Done(
            Decision {
                emit_len: (i + l) as usize,
                skip_len: 0,
                insert: None,
                action: StackAction::Replace(StateTag::Body),
            },
        )
    } else {
        Verdict::Classify {
            end_trigger: CASE_END_TRIGGER,
            offset: i as usize,
            otherwise: (i + l) as usize,
        }
    }
}

/// The selector state's verdict on window `s`, scanning from offset `i` on:
/// non-word bytes are passed over; the first word byte decides.
pub open spec fn selector_from(s: Seq<u8>, lengthenable: bool, i: int) -> Verdict
    decreases s.len() - i,
{
    if i >= s.len() {
        Verdict::Done(flush_spec(s.len() as usize))
    } else if !is_word_byte(s[i]) {
        selector_from(s, lengthenable, i + 1)
    } else {
        selector_at(s, lengthenable, i)
    }
}

/// The selector state's verdict on window `s`.
pub open spec fn selector_spec(s: Seq<u8>, lengthenable: bool) -> Verdict {
    selector_from(s, lengthenable, 0)
}

/// The selector-expression scanner: expects the `case` subject word, then the
/// keyword `in`.
pub struct SitIn {}

impl SitIn {
    /// Decide what to do with the window: skip ahead over non-word bytes and
    /// judge the first word found, per [`selector_spec`].
    pub fn whatnow(&self, horizon: &[u8], is_horizon_lengthenable: bool) -> (r: Verdict)
        ensures
            r == selector_spec(horizon@, is_horizon_lengthenable),
    {
        let ghost s = horizon@;
        let n = horizon.len();
        let mut i: usize = 0;
        while i < n
            invariant
                i <= n,
                n == s.len(),
                s == horizon@,
                selector_from(s, is_horizon_lengthenable, 0) == selector_from(
                    s,
                    is_horizon_lengthenable,
                    i as int,
                ),
            decreases n - i,
        {
            if is_word(horizon[i]) {
                proof {
                    lemma_word_len_at(s, i as int);
                }
                let l = word_run_len(horizon, i);
                if i + l == n && (i > 0 || is_horizon_lengthenable) {
                    return Verdict::Done(flush(i));
                }
                let is_kw = l == 2 && horizon[i] == 105 && horizon[i + 1] == 110;
                proof {
                    let sub = s.subrange(i as int, i + l);
                    assert(sub.len() == l);
                    assert(keyword_in().len() == 2);
                    if l == 2 {
                        assert(sub[0] == s[i as int]);
                        assert(sub[1] == s[i + 1]);
                        assert(keyword_in()[0] == 105);
                        assert(keyword_in()[1] == 110);
                    }
                    if is_kw {
                        assert(sub =~= keyword_in());
                    }
                }
                if is_kw {
                    return Verdict::Done(
                        Decision {
                            emit_len: i + l,
                            skip_len: 0,
                            insert: None,
                            action: StackAction::Replace(StateTag::Body),
                        },
                    );
                }
                return Verdict::Classify {
                    end_trigger: CASE_END_TRIGGER,
                    offset: i,
                    otherwise: i + l,
                };
            }
            i = i + 1;
        }
        Verdict::Done(flush(n))
    }

    /// The color under which this state emits: the selector's decided bytes
    /// carry the keyword color.
    pub fn get_color(&self) -> (c: ColorClass)
        ensures
            c == ColorClass::Keyword,
    {
        ColorClass::Keyword
    }
}

/// The body state's verdict when the first word byte or `)` of the window `s`
/// stands at offset `i`.
///
/// A `)` opens an arm: the bytes before it are emitted, the `)` itself is
/// retired, and the arm state is pushed with this state kept beneath it. A
/// decided word equal to `esac` emits only the bytes strictly before the word
/// and pops; the word itself is left un-retired for the caller to classify.
/// Everything else follows the selector's rules, without any keyword
/// transition.
pub open spec fn body_at(s: Seq<u8>, lengthenable: bool, i: int) -> Verdict {
    if s[i] == RIGHT_PAREN {
        Verdict::Done(
            Decision {
                emit_len: i as usize,
                skip_len: 1,
                insert: None,
                action: StackAction::Push(StateTag::Arm),
            },
        )
    } else {
        let l = word_len_at(s, i);
        if i + l == s.len() && (i > 0 || lengthenable) {
            Verdict::Done(flush_spec(i as usize))
        } else if s.subrange(i, i + l) == keyword_esac() {
            Verdict::Done(
                Decision { emit_len: i as usize, skip_len: 0, insert: None, action: StackAction::Pop },
            )
        } else {
            Verdict::Classify {
                end_trigger: CASE_END_TRIGGER,
                offset: i as usize,
                otherwise: (i + l) as usize,
            }
        }
    }
}

/// Whether the body state stops scanning at offset `i`: on a word byte or on
/// an arm-opening `)`.
pub open spec fn body_relevant(s: Seq<u8>, i: int) -> bool {
    is_word_byte(s[i]) || s[i] == RIGHT_PAREN
}

/// The body state's verdict on window `s`, scanning from offset `i` on.
pub open spec fn body_from(s: Seq<u8>, lengthenable: bool, i: int) -> Verdict
    decreases s.len() - i,
{
    if i >= s.len() {
        Verdict::Done(flush_spec(s.len() as usize))
    } else if !body_relevant(s, i) {
        body_from(s, lengthenable, i + 1)
    } else {
        body_at(s, lengthenable, i)
    }
}

/// The body state's verdict on window `s`.
pub open spec fn body_spec(s: Seq<u8>, lengthenable: bool) -> Verdict {
    body_from(s, lengthenable, 0)
}

/// The arm-pattern/terminator scanner: between arms, expects `)` opening an
/// arm pattern or the terminator word `esac`.
pub struct SitCase {}

impl SitCase {
    /// Decide what to do with the window: skip ahead to the first word byte
    /// or `)` and judge it, per [`body_spec`].
    pub fn whatnow(&self, horizon: &[u8], is_horizon_lengthenable: bool) -> (r: Verdict)
        ensures
            r == body_spec(horizon@, is_horizon_lengthenable),
    {
        let ghost s = horizon@;
        let n = horizon.len();
        let mut i: usize = 0;
        while i < n
            invariant
                i <= n,
                n == s.len(),
                s == horizon@,
                body_from(s, is_horizon_lengthenable, 0) == body_from(
                    s,
                    is_horizon_lengthenable,
                    i as int,
                ),
            decreases n - i,
        {
            let a = horizon[i];
            if is_word(a) {
                proof {
                    lemma_word_len_at(s, i as int);
                }
                let l = word_run_len(horizon, i);
                if i + l == n && (i > 0 || is_horizon_lengthenable) {
                    return Verdict::Done(flush(i));
                }
                let is_kw = l == 4 && horizon[i] == 101 && horizon[i + 1] == 115 && horizon[i + 2]
                    == 97 && horizon[i + 3] == 99;
                proof {
                    let sub = s.subrange(i as int, i + l);
                    assert(sub.len() == l);
                    assert(keyword_esac().len() == 4);
                    if l == 4 {
                        assert(sub[0] == s[i as int]);
                        assert(sub[1] == s[i + 1]);
                        assert(sub[2] == s[i + 2]);
                        assert(sub[3] == s[i + 3]);
                        assert(keyword_esac()[0] == 101);
                        assert(keyword_esac()[1] == 115);
                        assert(keyword_esac()[2] == 97);
                        assert(keyword_esac()[3] == 99);
                    }
                    if is_kw {
                        assert(sub =~= keyword_esac());
                    }
                }
                if is_kw {
                    return Verdict::Done(
                        Decision {
                            emit_len: i,
                            skip_len: 0,
                            insert: None,
                            action: StackAction::Pop,
                        },
                    );
                }
                return Verdict::Classify {
                    end_trigger: CASE_END_TRIGGER,
                    offset: i,
                    otherwise: i + l,
                };
            } else if a == RIGHT_PAREN {
                return Verdict::Done(
                    Decision {
                        emit_len: i,
                        skip_len: 1,
                        insert: None,
                        action: StackAction::Push(StateTag::Arm),
                    },
                );
            }
            i = i + 1;
        }
        Verdict::Done(flush(n))
    }

    /// The color under which this state emits plain bytes.
    pub fn get_color(&self) -> (c: ColorClass)
        ensures
            c == ColorClass::Normal,
    {
        ColorClass::Normal
    }
}

/// Separator bytes the arm state passes over without a decision: whitespace
/// and the operator bytes `; | & < >`.
pub open spec fn arm_skippable(b: u8) -> bool {
    is_whitespace_byte(b) || b == SEMICOLON || b == PIPE || b == AMPERSAND || b == LESS_THAN || b
        == GREATER_THAN
}

/// Whether the arm state stops scanning at offset `i`: on a `;` that proves
/// or defers the `;;` terminator, or on any byte outside its separator set.
pub open spec fn arm_relevant(s: Seq<u8>, lengthenable: bool, i: int) -> bool {
    if s[i] == SEMICOLON {
        (i + 1 < s.len() && s[i + 1] == SEMICOLON) || (i + 1 == s.len() && (i > 0 || lengthenable))
    } else {
        !arm_skippable(s[i])
    }
}

/// The arm state's verdict at the first offset `i` it stops at.
///
/// A proven `;;` ends the arm: the bytes before it are emitted, the two
/// terminator bytes are retired, and the state pops back to the body state. A
/// `;` that ends a window which may still grow is undecidable: emit the bytes
/// before it and stay. A boundary-proven word `esac` means the script omitted
/// the terminator: the bytes before the word are emitted, nothing is retired,
/// the corrective literal `;; ` is inserted into the output, and the state
/// pops — the un-retired `esac` is then consumed by the body state. Anything
/// else goes to the reserved-word-or-command dispatcher.
pub open spec fn arm_at(s: Seq<u8>, lengthenable: bool, i: int) -> Verdict {
    if s[i] == SEMICOLON && i + 1 < s.len() && s[i + 1] == SEMICOLON {
        Verdict::Done(
            Decision { emit_len: i as usize, skip_len: 2, insert: None, action: StackAction::Pop },
        )
    } else if s[i] == SEMICOLON {
        Verdict::Done(flush_spec(i as usize))
    } else {
        let l = word_len_at(s, i);
        if (i + l != s.len() || (i == 0 && !lengthenable)) && s.subrange(i, i + l)
            == keyword_esac() {
            Verdict::Done(
                Decision {
                    emit_len: i as usize,
                    skip_len: 0,
                    insert: Some(InsertLit::ArmTerminator),
                    action: StackAction::Pop,
                },
            )
        } else {
            Verdict::Dispatch { end_trigger: CASE_END_TRIGGER, offset: i as usize }
        }
    }
}

/// The arm state's verdict on window `s`, scanning from offset `i` on.
pub open spec fn arm_from(s: Seq<u8>, lengthenable: bool, i: int) -> Verdict
    decreases s.len() - i,
{
    if i >= s.len() {
        Verdict::Done(flush_spec(s.len() as usize))
    } else if !arm_relevant(s, lengthenable, i) {
        arm_from(s, lengthenable, i + 1)
    } else {
        arm_at(s, lengthenable, i)
    }
}

/// The arm state's verdict on window `s`.
pub open spec fn arm_spec(s: Seq<u8>, lengthenable: bool) -> Verdict {
    arm_from(s, lengthenable, 0)
}

/// The arm-body delegator: inside an arm, watches for the `;;` terminator or
/// for an early `esac`, and hands everything else to the command dispatcher.
pub struct SitCaseArm {}

impl SitCaseArm {
    /// Decide what to do with the window: skip separator bytes, judge a `;;`
    /// terminator or a premature `esac`, and otherwise delegate, per
    /// [`arm_spec`].
    pub fn whatnow(&self, horizon: &[u8], is_horizon_lengthenable: bool) -> (r: Verdict)
        ensures
            r == arm_spec(horizon@, is_horizon_lengthenable),
    {
        let ghost s = horizon@;
        let n = horizon.len();
        let mut i: usize = 0;
        while i < n
            invariant
                i <= n,
                n == s.len(),
                s == horizon@,
                arm_from(s, is_horizon_lengthenable, 0) == arm_from(
                    s,
                    is_horizon_lengthenable,
                    i as int,
                ),
            decreases n - i,
        {
            let a = horizon[i];
            if a == SEMICOLON {
                if i + 1 < n {
                    if horizon[i + 1] == SEMICOLON {
                        return Verdict::Done(
                            Decision {
                                emit_len: i,
                                skip_len: 2,
                                insert: None,
                                action: StackAction::Pop,
                            },
                        );
                    }
                } else if i > 0 || is_horizon_lengthenable {
                    return Verdict::Done(flush(i));
                }
            }
            if is_whitespace(a) || a == SEMICOLON || a == PIPE || a == AMPERSAND || a == LESS_THAN
                || a == GREATER_THAN {
                i = i + 1;
            } else {
                proof {
                    lemma_word_len_at(s, i as int);
                }
                let l = word_run_len(horizon, i);
                let decidable = i + l != n || (i == 0 && !is_horizon_lengthenable);
                let is_kw = l == 4 && horizon[i] == 101 && horizon[i + 1] == 115 && horizon[i + 2]
                    == 97 && horizon[i + 3] == 99;
                proof {
                    let sub = s.subrange(i as int, i + l);
                    assert(sub.len() == l);
                    assert(keyword_esac().len() == 4);
                    if l == 4 {
                        assert(sub[0] == s[i as int]);
                        assert(sub[1] == s[i + 1]);
                        assert(sub[2] == s[i + 2]);
                        assert(sub[3] == s[i + 3]);
                        assert(keyword_esac()[0] == 101);
                        assert(keyword_esac()[1] == 115);
                        assert(keyword_esac()[2] == 97);
                        assert(keyword_esac()[3] == 99);
                    }
                    if is_kw {
                        assert(sub =~= keyword_esac());
                    }
                }
                if decidable && is_kw {
                    return Verdict::Done(
                        Decision {
                            emit_len: i,
                            skip_len: 0,
                            insert: Some(InsertLit::ArmTerminator),
                            action: StackAction::Pop,
                        },
                    );
                }
                return Verdict::Dispatch { end_trigger: CASE_END_TRIGGER, offset: i };
            }
        }
        Verdict::Done(flush(n))
    }

    /// The color under which this state emits plain bytes.
    pub fn get_color(&self) -> (c: ColorClass)
        ensures
            c == ColorClass::Normal,
    {
        ColorClass::Normal
    }
}

} // verus!
