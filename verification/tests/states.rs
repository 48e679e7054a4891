//! Per-state decision tests: each state is fed a window twice, once marked as
//! still lengthenable and once as final, and the verdicts are checked.

use sitcase::flush;
use sitcase::Decision;
use sitcase::InsertLit;
use sitcase::SitCase;
use sitcase::SitCaseArm;
use sitcase::SitIn;
use sitcase::StackAction;
use sitcase::StateTag;
use sitcase::Verdict;
use sitcase::CASE_END_TRIGGER;

fn done_flush(n: usize) -> Verdict {
    Verdict::Done(flush(n))
}

fn classify(offset: usize, otherwise: usize) -> Verdict {
    Verdict::Classify { end_trigger: CASE_END_TRIGGER, offset, otherwise }
}

fn dispatch(offset: usize) -> Verdict {
    Verdict::Dispatch { end_trigger: CASE_END_TRIGGER, offset }
}

fn expect_in(horizon: &[u8], lengthenable: Verdict, fin: Verdict) {
    assert_eq!(SitIn {}.whatnow(horizon, true), lengthenable);
    assert_eq!(SitIn {}.whatnow(horizon, false), fin);
}

fn expect_case(horizon: &[u8], lengthenable: Verdict, fin: Verdict) {
    assert_eq!(SitCase {}.whatnow(horizon, true), lengthenable);
    assert_eq!(SitCase {}.whatnow(horizon, false), fin);
}

fn expect_casearm(horizon: &[u8], lengthenable: Verdict, fin: Verdict) {
    assert_eq!(SitCaseArm {}.whatnow(horizon, true), lengthenable);
    assert_eq!(SitCaseArm {}.whatnow(horizon, false), fin);
}

#[test]
fn test_sit_in() {
    let found_the_in_word = Verdict::Done(Decision {
        emit_len: 2,
        skip_len: 0,
        insert: None,
        action: StackAction::Replace(StateTag::Body),
    });
    expect_in(b"", done_flush(0), done_flush(0));
    expect_in(b" ", done_flush(1), done_flush(1));
    expect_in(b"i", done_flush(0), classify(0, 1));
    expect_in(b"in ", found_the_in_word, found_the_in_word);
    expect_in(b"in", done_flush(0), found_the_in_word);
    expect_in(b"inn", done_flush(0), classify(0, 3));
    expect_in(b" in", done_flush(1), done_flush(1));
    expect_in(b"fin", done_flush(0), classify(0, 3));
    expect_in(b"fin ", classify(0, 3), classify(0, 3));
}

#[test]
fn test_sit_case() {
    let found_the_esac_word = Verdict::Done(Decision {
        emit_len: 0,
        skip_len: 0,
        insert: None,
        action: StackAction::Pop,
    });
    expect_case(b"", done_flush(0), done_flush(0));
    expect_case(b" ", done_flush(1), done_flush(1));
    expect_case(b"esa", done_flush(0), classify(0, 3));
    expect_case(b"esac ", found_the_esac_word, found_the_esac_word);
    expect_case(b"esac", done_flush(0), found_the_esac_word);
    expect_case(b"esacs", done_flush(0), classify(0, 5));
    expect_case(b" esac", done_flush(1), done_flush(1));
    expect_case(b"besac", done_flush(0), classify(0, 5));
    expect_case(b"besac ", classify(0, 5), classify(0, 5));
}

#[test]
fn test_sit_casearm() {
    let found_the_esac_word = Verdict::Done(Decision {
        emit_len: 0,
        skip_len: 0,
        insert: Some(InsertLit::ArmTerminator),
        action: StackAction::Pop,
    });
    expect_casearm(b"", done_flush(0), done_flush(0));
    expect_casearm(b" ", done_flush(1), done_flush(1));
    expect_casearm(b"esa", dispatch(0), dispatch(0));
    expect_casearm(b"esac ", found_the_esac_word, found_the_esac_word);
    expect_casearm(b"esac", dispatch(0), found_the_esac_word);
    expect_casearm(b"esacs", dispatch(0), dispatch(0));
    expect_casearm(b" esac", dispatch(1), dispatch(1));
    expect_casearm(b"besac", dispatch(0), dispatch(0));
    expect_casearm(b"besac ", dispatch(0), dispatch(0));
}

#[test]
fn test_arm_terminator_bytes() {
    let arm_pop = Verdict::Done(Decision {
        emit_len: 0,
        skip_len: 2,
        insert: None,
        action: StackAction::Pop,
    });
    expect_casearm(b";;", arm_pop, arm_pop);
    expect_casearm(b";; ", arm_pop, arm_pop);
    expect_casearm(b"cmd;; more", dispatch(0), dispatch(0));
    let pop_after_one = Verdict::Done(Decision {
        emit_len: 1,
        skip_len: 2,
        insert: None,
        action: StackAction::Pop,
    });
    expect_casearm(b" ;;", pop_after_one, pop_after_one);
    // A lone `;` ending a window that may still grow is undecidable.
    expect_casearm(b";", done_flush(0), done_flush(1));
    expect_casearm(b"; ;", done_flush(2), done_flush(2));
}

#[test]
fn test_case_open_paren() {
    // The pattern word is delegated first; the `)` is reached once the word
    // is retired.
    expect_case(b"red) cmd", classify(0, 3), classify(0, 3));
    let open_arm = Verdict::Done(Decision {
        emit_len: 0,
        skip_len: 1,
        insert: None,
        action: StackAction::Push(StateTag::Arm),
    });
    expect_case(b") cmd", open_arm, open_arm);
    expect_case(b")", open_arm, open_arm);
}

#[test]
fn test_colors() {
    assert_eq!(SitIn {}.get_color(), sitcase::ColorClass::Keyword);
    assert_eq!(SitCase {}.get_color(), sitcase::ColorClass::Normal);
    assert_eq!(SitCaseArm {}.get_color(), sitcase::ColorClass::Normal);
}

#[test]
fn test_insert_literal_bytes() {
    assert_eq!(InsertLit::ArmTerminator.bytes(), b";; ".to_vec());
}
