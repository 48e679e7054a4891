//! Scenario tests: whole windows driven through the automaton, the
//! whitespace and keyword-boundary properties on concrete windows, the
//! corrective-insertion equivalence, and the round-trip of a well-formed
//! construct.

use sitcase::bytes::word_run_len;
use sitcase::flush;
use sitcase::Decision;
use sitcase::InsertLit;
use sitcase::SitCase;
use sitcase::SitCaseArm;
use sitcase::SitIn;
use sitcase::StackAction;
use sitcase::StateTag;
use sitcase::Verdict;

fn done_flush(n: usize) -> Verdict {
    Verdict::Done(flush(n))
}

/// A minimal engine: drives the state stack over `input` handed out as one
/// final window, resolving delegations the way the surrounding tool would on
/// plain words — the quoting classifier declines (the fallback flush applies)
/// and the command dispatcher consumes the delegated word.
fn drive(input: &[u8], mut stack: Vec<StateTag>) -> Vec<u8> {
    let mut out: Vec<u8> = Vec::new();
    let mut cursor: usize = 0;
    let mut steps: usize = 0;
    loop {
        steps += 1;
        assert!(steps < 1000, "driver did not finish");
        if stack.is_empty() {
            out.extend_from_slice(&input[cursor..]);
            return out;
        }
        let window = &input[cursor..];
        let verdict = match stack.last().unwrap() {
            StateTag::Selector => SitIn {}.whatnow(window, false),
            StateTag::Body => SitCase {}.whatnow(window, false),
            StateTag::Arm => SitCaseArm {}.whatnow(window, false),
        };
        let d = match verdict {
            Verdict::Done(d) => d,
            Verdict::Classify { otherwise, .. } => flush(otherwise),
            Verdict::Dispatch { offset, .. } => {
                let l = word_run_len(window, offset);
                assert!(l > 0, "dispatcher fed a non-word byte");
                if offset + l == window.len() && offset > 0 {
                    // the dispatcher applies the same end-of-window
                    // discipline: an unanchored word is deferred
                    flush(offset)
                } else {
                    flush(offset + l)
                }
            }
        };
        out.extend_from_slice(&window[..d.emit_len]);
        match d.insert {
            Some(lit) => out.extend_from_slice(&lit.bytes()),
            None => out.extend_from_slice(&window[d.emit_len..d.emit_len + d.skip_len]),
        }
        cursor += d.emit_len + d.skip_len;
        match d.action {
            StackAction::Stay => {
                if d.emit_len + d.skip_len == 0 {
                    out.extend_from_slice(&input[cursor..]);
                    return out;
                }
            }
            StackAction::Replace(t) => {
                let n = stack.len();
                stack[n - 1] = t;
            }
            StackAction::Push(t) => stack.push(t),
            StackAction::Pop => {
                stack.pop();
            }
        }
    }
}

#[test]
fn whitespace_windows_flush_everywhere() {
    let windows: [&[u8]; 4] = [b"", b" ", b"  ", b" \t\n "];
    for w in windows {
        for lengthenable in [true, false] {
            assert_eq!(SitIn {}.whatnow(w, lengthenable), done_flush(w.len()));
            assert_eq!(SitCase {}.whatnow(w, lengthenable), done_flush(w.len()));
            assert_eq!(SitCaseArm {}.whatnow(w, lengthenable), done_flush(w.len()));
        }
    }
}

fn is_replace(v: &Verdict) -> bool {
    matches!(v, Verdict::Done(Decision { action: StackAction::Replace(_), .. }))
}

#[test]
fn keyword_prefixes_never_transition() {
    // Strict prefixes of `in`, fed as final windows, must not transition.
    assert!(!is_replace(&SitIn {}.whatnow(b"", false)));
    assert!(!is_replace(&SitIn {}.whatnow(b"i", false)));
    // Nor do lengthenable windows whose word run touches the end.
    assert!(!is_replace(&SitIn {}.whatnow(b"i", true)));
    assert!(!is_replace(&SitIn {}.whatnow(b"in", true)));
    // The bounded whole word does transition.
    assert!(is_replace(&SitIn {}.whatnow(b"in", false)));
    assert!(is_replace(&SitIn {}.whatnow(b"in ", true)));
}

#[test]
fn selector_transitions_on_in() {
    // Scenario: the window `in ` makes the selector emit the keyword (two
    // bytes, the following space left unconsumed) and replace itself with the
    // body state.
    let expected = Verdict::Done(Decision {
        emit_len: 2,
        skip_len: 0,
        insert: None,
        action: StackAction::Replace(StateTag::Body),
    });
    assert_eq!(SitIn {}.whatnow(b"in ", true), expected);
    assert_eq!(SitIn {}.whatnow(b"in ", false), expected);
}

#[test]
fn selector_treats_fin_as_ordinary_word() {
    // Scenario: `fin ` holds the keyword only as a suffix of a longer word;
    // the selector never transitions and hands the word over to be flushed.
    let expected = Verdict::Classify { end_trigger: sitcase::CASE_END_TRIGGER, offset: 0, otherwise: 3 };
    assert_eq!(SitIn {}.whatnow(b"fin ", true), expected);
    assert_eq!(SitIn {}.whatnow(b"fin ", false), expected);
}

#[test]
fn body_pops_on_esac_leaving_the_word() {
    // Scenario: `esac ;; ` makes the body state pop at once, emitting the
    // zero bytes before the word and leaving `esac` un-retired for the
    // caller.
    let expected = Verdict::Done(Decision {
        emit_len: 0,
        skip_len: 0,
        insert: None,
        action: StackAction::Pop,
    });
    assert_eq!(SitCase {}.whatnow(b"esac ;; ", true), expected);
    assert_eq!(SitCase {}.whatnow(b"esac ;; ", false), expected);
}

#[test]
fn arm_repairs_missing_terminator() {
    // Scenario: `esac ` reaching the arm state with no `;;` seen yields the
    // corrective insertion and a pop; the body state then consumes the
    // exposed `esac` on the next cycle.
    let repair = Verdict::Done(Decision {
        emit_len: 0,
        skip_len: 0,
        insert: Some(InsertLit::ArmTerminator),
        action: StackAction::Pop,
    });
    assert_eq!(SitCaseArm {}.whatnow(b"esac ", true), repair);
    assert_eq!(SitCaseArm {}.whatnow(b"esac ", false), repair);
    // The repair retires nothing, so the body state sees the same window.
    let pop = Verdict::Done(Decision {
        emit_len: 0,
        skip_len: 0,
        insert: None,
        action: StackAction::Pop,
    });
    assert_eq!(SitCase {}.whatnow(b"esac ", true), pop);
    assert_eq!(SitCase {}.whatnow(b"esac ", false), pop);
}

#[test]
fn body_treats_besac_as_ordinary_word() {
    // Scenario: `besac ` holds the terminator only as a suffix of a longer
    // word; the body state does not pop and hands the word over in full.
    let expected = Verdict::Classify { end_trigger: sitcase::CASE_END_TRIGGER, offset: 0, otherwise: 5 };
    assert_eq!(SitCase {}.whatnow(b"besac ", true), expected);
    assert_eq!(SitCase {}.whatnow(b"besac ", false), expected);
}

#[test]
fn corrective_insertion_is_equivalent_to_terminated_script() {
    // Driving arm-then-body over `esac` writes the same bytes as driving
    // them over `;; esac`: the corrective insertion repairs the script.
    let unterminated = drive(b"esac", vec![StateTag::Body, StateTag::Arm]);
    let terminated = drive(b";; esac", vec![StateTag::Body, StateTag::Arm]);
    assert_eq!(unterminated, b";; esac".to_vec());
    assert_eq!(terminated, b";; esac".to_vec());
    assert_eq!(unterminated, terminated);
}

#[test]
fn well_formed_construct_round_trips() {
    // No insertion fires on a well-formed construct: the emitted and
    // passed-through bytes reproduce the input exactly.
    let input: &[u8] = b"x in red) cmd;; esac";
    let out = drive(input, vec![StateTag::Selector]);
    assert_eq!(out, input.to_vec());
}

#[test]
fn unterminated_arm_round_trips_with_insertion() {
    // The same construct missing its `;;` gains exactly the corrective
    // three bytes, in place.
    let input: &[u8] = b"x in red) cmd esac";
    let out = drive(input, vec![StateTag::Selector]);
    assert_eq!(out, b"x in red) cmd ;; esac".to_vec());
}
