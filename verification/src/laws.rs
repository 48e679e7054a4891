//! Laws of the automaton, proved against the verdict specifications: what
//! whitespace windows yield, when the selector may transition, when the
//! corrective insertion fires and that it is equivalent to a script that
//! already carried the terminator, and byte-for-byte output fidelity.

use vstd::prelude::*;

use crate::bytes::is_whitespace_byte;
use crate::bytes::is_word_byte;
use crate::bytes::lemma_word_len_at;
use crate::bytes::word_len_at;
use crate::bytes::SEMICOLON;
use crate::bytes::SPACE;
use crate::decision::flush_spec;
use crate::decision::Decision;
use crate::decision::InsertLit;
use crate::decision::StackAction;
use crate::decision::StateTag;
use crate::decision::Verdict;
use crate::engine::decision_output;
use crate::engine::run_consumed;
use crate::engine::run_output;
use crate::sitcase::arm_at;
use crate::sitcase::arm_from;
use crate::sitcase::arm_relevant;
use crate::sitcase::arm_spec;
use crate::sitcase::body_at;
use crate::sitcase::body_from;
use crate::sitcase::body_relevant;
use crate::sitcase::body_spec;
use crate::sitcase::keyword_esac;
use crate::sitcase::keyword_in;
use crate::sitcase::selector_at;
use crate::sitcase::selector_from;
use crate::sitcase::selector_spec;

verus! {

/// While every byte before `i` is passed over, the selector's verdict from
/// the start of the window is its verdict from `i`.
proof fn lemma_selector_skip_prefix(s: Seq<u8>, lengthenable: bool, j: int, i: int)
    requires
        0 <= j <= i <= s.len(),
        forall|k: int| j <= k < i ==> !is_word_byte(s[k]),
    ensures
        selector_from(s, lengthenable, j) == selector_from(s, lengthenable, i),
    decreases i - j,
{
    if j < i {
        lemma_selector_skip_prefix(s, lengthenable, j + 1, i);
    }
}

/// While every byte before `i` is passed over, the body state's verdict from
/// the start of the window is its verdict from `i`.
proof fn lemma_body_skip_prefix(s: Seq<u8>, lengthenable: bool, j: int, i: int)
    requires
        0 <= j <= i <= s.len(),
        forall|k: int| j <= k < i ==> !body_relevant(s, k),
    ensures
        body_from(s, lengthenable, j) == body_from(s, lengthenable, i),
    decreases i - j,
{
    if j < i {
        lemma_body_skip_prefix(s, lengthenable, j + 1, i);
    }
}

/// While every byte before `i` is passed over, the arm state's verdict from
/// the start of the window is its verdict from `i`.
proof fn lemma_arm_skip_prefix(s: Seq<u8>, lengthenable: bool, j: int, i: int)
    requires
        0 <= j <= i <= s.len(),
        forall|k: int| j <= k < i ==> !arm_relevant(s, lengthenable, k),
    ensures
        arm_from(s, lengthenable, j) == arm_from(s, lengthenable, i),
    decreases i - j,
{
    if j < i {
        lemma_arm_skip_prefix(s, lengthenable, j + 1, i);
    }
}

/// Where the window's first word byte stands at `i`, the selector's verdict
/// is decided there.
pub proof fn lemma_selector_first_word(s: Seq<u8>, lengthenable: bool, i: int)
    requires
        0 <= i < s.len(),
        is_word_byte(s[i]),
        forall|k: int| 0 <= k < i ==> !is_word_byte(s[k]),
    ensures
        selector_spec(s, lengthenable) == selector_at(s, lengthenable, i),
{
    lemma_selector_skip_prefix(s, lengthenable, 0, i);
}

/// Where the window's first word byte or `)` stands at `i`, the body state's
/// verdict is decided there.
pub proof fn lemma_body_first_relevant(s: Seq<u8>, lengthenable: bool, i: int)
    requires
        0 <= i < s.len(),
        body_relevant(s, i),
        forall|k: int| 0 <= k < i ==> !body_relevant(s, k),
    ensures
        body_spec(s, lengthenable) == body_at(s, lengthenable, i),
{
    lemma_body_skip_prefix(s, lengthenable, 0, i);
}

/// Where the arm state's first stop stands at `i`, its verdict is decided
/// there.
pub proof fn lemma_arm_first_relevant(s: Seq<u8>, lengthenable: bool, i: int)
    requires
        0 <= i < s.len(),
        arm_relevant(s, lengthenable, i),
        forall|k: int| 0 <= k < i ==> !arm_relevant(s, lengthenable, k),
    ensures
        arm_spec(s, lengthenable) == arm_at(s, lengthenable, i),
{
    lemma_arm_skip_prefix(s, lengthenable, 0, i);
}

/// Law: a window consisting of whitespace alone — the empty window included —
/// yields no decision in any state: each state emits the whole window as
/// plain text and stays, whether or not the window may still grow.
pub proof fn lemma_whitespace_window_flushes(s: Seq<u8>, lengthenable: bool)
    requires
        forall|j: int| 0 <= j < s.len() ==> is_whitespace_byte(s[j]),
    ensures
        selector_spec(s, lengthenable) == Verdict::Done(flush_spec(s.len() as usize)),
        body_spec(s, lengthenable) == Verdict::Done(flush_spec(s.len() as usize)),
        arm_spec(s, lengthenable) == Verdict::Done(flush_spec(s.len() as usize)),
{
    assert forall|k: int| 0 <= k < s.len() implies !is_word_byte(s[k]) by {
        assert(is_whitespace_byte(s[k]));
    }
    assert forall|k: int| 0 <= k < s.len() implies !body_relevant(s, k) by {
        assert(is_whitespace_byte(s[k]));
    }
    assert forall|k: int| 0 <= k < s.len() implies !arm_relevant(s, lengthenable, k) by {
        assert(is_whitespace_byte(s[k]));
    }
    lemma_selector_skip_prefix(s, lengthenable, 0, s.len() as int);
    lemma_body_skip_prefix(s, lengthenable, 0, s.len() as int);
    lemma_arm_skip_prefix(s, lengthenable, 0, s.len() as int);
}

/// A `Replace` verdict anywhere in the selector's scan points at a bounded
/// occurrence of the keyword `in`.
proof fn lemma_selector_replace_witness(s: Seq<u8>, lengthenable: bool, i: int)
    requires
        0 <= i <= s.len(),
    ensures
        selector_from(s, lengthenable, i) matches Verdict::Done(d) ==> d.action matches
            StackAction::Replace(_) ==> exists|w: int|
            #![trigger s.subrange(w, w + 2)]
            0 <= w && w + 2 <= s.len() && s.subrange(w, w + 2) == keyword_in() && word_len_at(
                s,
                w,
            ) == 2 && !(w + 2 == s.len() && (w > 0 || lengthenable)),
    decreases s.len() - i,
{
    if i < s.len() {
        if !is_word_byte(s[i]) {
            lemma_selector_replace_witness(s, lengthenable, i + 1);
        } else {
            let l = word_len_at(s, i);
            lemma_word_len_at(s, i);
            if !(i + l == s.len() && (i > 0 || lengthenable)) && s.subrange(i, i + l)
                == keyword_in() {
                assert(s.subrange(i, i + l).len() == l);
                assert(keyword_in().len() == 2);
                assert(l == 2);
                assert(s.subrange(i, i + 2) == keyword_in());
            }
        }
    }
}

/// Law: the selector transitions only on the strength of the whole keyword —
/// a `Replace` verdict means the window holds the word `in` with a proven
/// right boundary.
pub proof fn lemma_selector_transition_needs_keyword(s: Seq<u8>, lengthenable: bool)
    ensures
        selector_spec(s, lengthenable) matches Verdict::Done(d) ==> d.action matches
            StackAction::Replace(_) ==> exists|w: int|
            #![trigger s.subrange(w, w + 2)]
            0 <= w && w + 2 <= s.len() && s.subrange(w, w + 2) == keyword_in() && word_len_at(
                s,
                w,
            ) == 2 && !(w + 2 == s.len() && (w > 0 || lengthenable)),
{
    lemma_selector_replace_witness(s, lengthenable, 0);
}

/// Law: a window too short to hold the keyword — any strict prefix of `in`
/// among them — can never make the selector transition, however it is fed.
pub proof fn lemma_selector_short_window_never_transitions(s: Seq<u8>, lengthenable: bool)
    requires
        s.len() < 2,
    ensures
        !(selector_spec(s, lengthenable) matches Verdict::Done(d) && d.action matches
            StackAction::Replace(_)),
{
    lemma_selector_transition_needs_keyword(s, lengthenable);
}

/// Law: once the window's first word is the keyword `in` with its right
/// boundary proven, the selector does transition: it emits through the
/// keyword and replaces itself with the body state.
pub proof fn lemma_selector_keyword_transitions(s: Seq<u8>, lengthenable: bool, i: int)
    requires
        0 <= i < s.len(),
        is_word_byte(s[i]),
        forall|k: int| 0 <= k < i ==> !is_word_byte(s[k]),
        word_len_at(s, i) == 2,
        s.subrange(i, i + 2) == keyword_in(),
        !(i + 2 == s.len() && (i > 0 || lengthenable)),
    ensures
        selector_spec(s, lengthenable) == Verdict::Done(
            Decision {
                emit_len: (i + 2) as usize,
                skip_len: 0,
                insert: None,
                action: StackAction::Replace(StateTag::Body),
            },
        ),
{
    lemma_selector_first_word(s, lengthenable, i);
}

/// Law: inside an arm, a boundary-proven `esac` with nothing but separators
/// before it always triggers the corrective insertion: the arm emits the
/// bytes before the word, retires nothing, inserts `;; `, and pops — the
/// un-retired `esac` is left for the body state.
pub proof fn lemma_premature_esac_inserts(s: Seq<u8>, lengthenable: bool, i: int)
    requires
        0 <= i < s.len(),
        forall|k: int| 0 <= k < i ==> !arm_relevant(s, lengthenable, k),
        word_len_at(s, i) == 4,
        s.subrange(i, i + 4) == keyword_esac(),
        i + 4 != s.len() || (i == 0 && !lengthenable),
    ensures
        arm_spec(s, lengthenable) == Verdict::Done(
            Decision {
                emit_len: i as usize,
                skip_len: 0,
                insert: Some(InsertLit::ArmTerminator),
                action: StackAction::Pop,
            },
        ),
{
    lemma_word_len_at(s, i);
    assert(s.subrange(i, i + 4)[0] == s[i]);
    assert(keyword_esac()[0] == 101);
    assert(s[i] == 101);
    assert(arm_relevant(s, lengthenable, i));
    lemma_arm_first_relevant(s, lengthenable, i);
}

/// Law: when the arm's first stop is a proven `;;`, the arm ends without any
/// insertion: it emits the bytes before the terminator, retires the two
/// terminator bytes, and pops.
pub proof fn lemma_terminator_pops_without_insert(s: Seq<u8>, lengthenable: bool, i: int)
    requires
        0 <= i,
        i + 1 < s.len(),
        s[i] == SEMICOLON,
        s[i + 1] == SEMICOLON,
        forall|k: int| 0 <= k < i ==> !arm_relevant(s, lengthenable, k),
    ensures
        arm_spec(s, lengthenable) == Verdict::Done(
            Decision { emit_len: i as usize, skip_len: 2, insert: None, action: StackAction::Pop },
        ),
{
    assert(arm_relevant(s, lengthenable, i));
    lemma_arm_first_relevant(s, lengthenable, i);
}

/// An insertion anywhere in the arm's scan points at a boundary-proven
/// `esac`.
proof fn lemma_arm_insert_witness(s: Seq<u8>, lengthenable: bool, i: int)
    requires
        0 <= i <= s.len(),
    ensures
        arm_from(s, lengthenable, i) matches Verdict::Done(d) ==> d.insert matches Some(lit)
            ==> lit == InsertLit::ArmTerminator && d.skip_len == 0 && d.action == StackAction::Pop
            && exists|w: int|
            #![trigger s.subrange(w, w + 4)]
            0 <= w && w + 4 <= s.len() && s.subrange(w, w + 4) == keyword_esac() && word_len_at(
                s,
                w,
            ) == 4 && (w + 4 != s.len() || (w == 0 && !lengthenable)),
    decreases s.len() - i,
{
    if i < s.len() {
        if !arm_relevant(s, lengthenable, i) {
            lemma_arm_insert_witness(s, lengthenable, i + 1);
        } else {
            let l = word_len_at(s, i);
            lemma_word_len_at(s, i);
            if (i + l != s.len() || (i == 0 && !lengthenable)) && s.subrange(i, i + l)
                == keyword_esac() {
                assert(s.subrange(i, i + l).len() == l);
                assert(keyword_esac().len() == 4);
                assert(l == 4);
                assert(s.subrange(i, i + 4) == keyword_esac());
            }
        }
    }
}

/// Law: the arm's only insertion is the corrective terminator. A verdict
/// carrying an insertion inserts `;; `, retires nothing, pops, and is
/// provoked by a boundary-proven `esac` in the window; while the terminator
/// is present and reached first, no insertion fires.
pub proof fn lemma_arm_insert_only_repairs(s: Seq<u8>, lengthenable: bool)
    ensures
        arm_spec(s, lengthenable) matches Verdict::Done(d) ==> d.insert matches Some(lit)
            ==> lit == InsertLit::ArmTerminator && d.skip_len == 0 && d.action == StackAction::Pop
            && exists|w: int|
            #![trigger s.subrange(w, w + 4)]
            0 <= w && w + 4 <= s.len() && s.subrange(w, w + 4) == keyword_esac() && word_len_at(
                s,
                w,
            ) == 4 && (w + 4 != s.len() || (w == 0 && !lengthenable)),
{
    lemma_arm_insert_witness(s, lengthenable, 0);
}

/// No verdict of the selector's scan carries an insertion.
proof fn lemma_selector_no_insert_from(s: Seq<u8>, lengthenable: bool, i: int)
    requires
        0 <= i <= s.len(),
    ensures
        selector_from(s, lengthenable, i) matches Verdict::Done(d) ==> d.insert is None,
    decreases s.len() - i,
{
    if i < s.len() && !is_word_byte(s[i]) {
        lemma_selector_no_insert_from(s, lengthenable, i + 1);
    }
}

/// No verdict of the body state's scan carries an insertion.
proof fn lemma_body_no_insert_from(s: Seq<u8>, lengthenable: bool, i: int)
    requires
        0 <= i <= s.len(),
    ensures
        body_from(s, lengthenable, i) matches Verdict::Done(d) ==> d.insert is None,
    decreases s.len() - i,
{
    if i < s.len() && !body_relevant(s, i) {
        lemma_body_no_insert_from(s, lengthenable, i + 1);
    }
}

/// Law: neither the selector nor the body state ever writes an insertion;
/// every byte those states retire reaches the output unchanged. Together with
/// the round-trip law of the engine model, a drive in which only these states
/// decide reproduces its input exactly.
pub proof fn lemma_selector_body_never_insert(s: Seq<u8>, lengthenable: bool)
    ensures
        selector_spec(s, lengthenable) matches Verdict::Done(d) ==> d.insert is None,
        body_spec(s, lengthenable) matches Verdict::Done(d) ==> d.insert is None,
{
    lemma_selector_no_insert_from(s, lengthenable, 0);
    lemma_body_no_insert_from(s, lengthenable, 0);
}

/// Every verdict of the selector's scan stays within the window.
proof fn lemma_selector_fits_from(s: Seq<u8>, lengthenable: bool, i: int)
    requires
        0 <= i <= s.len(),
        s.len() <= usize::MAX,
    ensures
        selector_from(s, lengthenable, i) matches Verdict::Done(d) ==> d.emit_len + d.skip_len
            <= s.len(),
        selector_from(s, lengthenable, i) matches Verdict::Classify { offset, otherwise, .. }
            ==> offset < s.len() && otherwise <= s.len(),
    decreases s.len() - i,
{
    if i < s.len() {
        if !is_word_byte(s[i]) {
            lemma_selector_fits_from(s, lengthenable, i + 1);
        } else {
            lemma_word_len_at(s, i);
        }
    }
}

/// Every verdict of the body state's scan stays within the window.
proof fn lemma_body_fits_from(s: Seq<u8>, lengthenable: bool, i: int)
    requires
        0 <= i <= s.len(),
        s.len() <= usize::MAX,
    ensures
        body_from(s, lengthenable, i) matches Verdict::Done(d) ==> d.emit_len + d.skip_len
            <= s.len(),
        body_from(s, lengthenable, i) matches Verdict::Classify { offset, otherwise, .. }
            ==> offset < s.len() && otherwise <= s.len(),
    decreases s.len() - i,
{
    if i < s.len() {
        if !body_relevant(s, i) {
            lemma_body_fits_from(s, lengthenable, i + 1);
        } else {
            lemma_word_len_at(s, i);
        }
    }
}

/// Every verdict of the arm state's scan stays within the window.
proof fn lemma_arm_fits_from(s: Seq<u8>, lengthenable: bool, i: int)
    requires
        0 <= i <= s.len(),
        s.len() <= usize::MAX,
    ensures
        arm_from(s, lengthenable, i) matches Verdict::Done(d) ==> d.emit_len + d.skip_len
            <= s.len(),
        arm_from(s, lengthenable, i) matches Verdict::Dispatch { offset, .. } ==> offset
            < s.len(),
    decreases s.len() - i,
{
    if i < s.len() {
        if !arm_relevant(s, lengthenable, i) {
            lemma_arm_fits_from(s, lengthenable, i + 1);
        } else {
            lemma_word_len_at(s, i);
        }
    }
}

/// Law: a state's decision never reaches beyond its window — the bytes it
/// asks the engine to emit and retire all lie within the window it judged,
/// and a delegation points at a byte of the window. The engine can therefore
/// always apply a decision atomically.
pub proof fn lemma_verdicts_fit_the_window(s: Seq<u8>, lengthenable: bool)
    requires
        s.len() <= usize::MAX,
    ensures
        selector_spec(s, lengthenable) matches Verdict::Done(d) ==> d.emit_len + d.skip_len
            <= s.len(),
        selector_spec(s, lengthenable) matches Verdict::Classify { offset, otherwise, .. }
            ==> offset < s.len() && otherwise <= s.len(),
        body_spec(s, lengthenable) matches Verdict::Done(d) ==> d.emit_len + d.skip_len
            <= s.len(),
        body_spec(s, lengthenable) matches Verdict::Classify { offset, otherwise, .. } ==> offset
            < s.len() && otherwise <= s.len(),
        arm_spec(s, lengthenable) matches Verdict::Done(d) ==> d.emit_len + d.skip_len <= s.len(),
        arm_spec(s, lengthenable) matches Verdict::Dispatch { offset, .. } ==> offset < s.len(),
{
    lemma_selector_fits_from(s, lengthenable, 0);
    lemma_body_fits_from(s, lengthenable, 0);
    lemma_arm_fits_from(s, lengthenable, 0);
}

/// Law: the corrective insertion is equivalent, byte for byte, to a script
/// that already carried the terminator. Driving the arm and then the body
/// state over the final window `esac` writes `;; ` to the output, retires
/// nothing, and leaves the terminator word for the caller; driving them over
/// the final window `;; esac` writes the same three bytes and likewise leaves
/// `esac` next.
pub proof fn lemma_corrective_insertion_equivalent()
    ensures
        ({
            let bare = keyword_esac();
            let repair = Decision {
                emit_len: 0,
                skip_len: 0,
                insert: Some(InsertLit::ArmTerminator),
                action: StackAction::Pop,
            };
            let leave = Decision { emit_len: 0, skip_len: 0, insert: None, action: StackAction::Pop };
            &&& arm_spec(bare, false) == Verdict::Done(repair)
            &&& body_spec(bare, false) == Verdict::Done(leave)
            &&& run_output(bare, 0, seq![repair, leave]) == seq![SEMICOLON, SEMICOLON, SPACE]
            &&& run_consumed(seq![repair, leave]) == 0
        }),
        ({
            let term = seq![SEMICOLON, SEMICOLON, SPACE] + keyword_esac();
            let pop2 = Decision { emit_len: 0, skip_len: 2, insert: None, action: StackAction::Pop };
            let leave = Decision { emit_len: 0, skip_len: 0, insert: None, action: StackAction::Pop };
            &&& arm_spec(term, false) == Verdict::Done(pop2)
            &&& body_spec(term.subrange(2, 7), false) == Verdict::Done(flush_spec(1))
            &&& term.subrange(3, 7) == keyword_esac()
            &&& body_spec(term.subrange(3, 7), false) == Verdict::Done(leave)
            &&& run_output(term, 0, seq![pop2, flush_spec(1), leave]) == seq![
                SEMICOLON,
                SEMICOLON,
                SPACE,
            ]
            &&& run_consumed(seq![pop2, flush_spec(1), leave]) == 3
        }),
{
    let bare = keyword_esac();
    let repair = Decision {
        emit_len: 0,
        skip_len: 0,
        insert: Some(InsertLit::ArmTerminator),
        action: StackAction::Pop,
    };
    let leave = Decision { emit_len: 0, skip_len: 0, insert: None, action: StackAction::Pop };
    assert(bare.len() == 4);
    assert(bare[0] == 101 && bare[1] == 115 && bare[2] == 97 && bare[3] == 99);
    assert(word_len_at(bare, 0) == 4) by {
        reveal_with_fuel(word_len_at, 6);
    }
    assert(bare.subrange(0, 4) =~= bare);
    lemma_premature_esac_inserts(bare, false, 0);
    assert(body_relevant(bare, 0));
    lemma_body_first_relevant(bare, false, 0);
    assert(body_at(bare, false, 0) == Verdict::Done(leave));

    let ds1 = seq![repair, leave];
    let tail1 = seq![leave];
    assert(ds1.len() == 2 && ds1[0] == repair && ds1[1] == leave);
    assert(ds1.drop_first() =~= tail1);
    assert(tail1.drop_first() =~= Seq::<Decision>::empty());
    assert(bare.subrange(0, bare.len() as int) =~= bare);
    assert(decision_output(bare, repair) =~= seq![SEMICOLON, SEMICOLON, SPACE]);
    assert(decision_output(bare, leave) =~= Seq::<u8>::empty());
    assert(run_consumed(Seq::<Decision>::empty()) == 0);
    assert(run_consumed(tail1) == 0);
    assert(run_consumed(ds1) == 0);
    assert(run_output(bare, 0, Seq::<Decision>::empty()) =~= Seq::<u8>::empty());
    assert(run_output(bare, 0, tail1) == decision_output(bare, leave) + run_output(
        bare,
        0,
        tail1.drop_first(),
    ));
    assert(run_output(bare, 0, ds1) == decision_output(bare, repair) + run_output(bare, 0, tail1));
    assert(run_output(bare, 0, ds1) =~= seq![SEMICOLON, SEMICOLON, SPACE]);

    let term = seq![SEMICOLON, SEMICOLON, SPACE] + keyword_esac();
    let pop2 = Decision { emit_len: 0, skip_len: 2, insert: None, action: StackAction::Pop };
    assert(term.len() == 7);
    assert(term[0] == SEMICOLON && term[1] == SEMICOLON && term[2] == SPACE);
    assert(term[3] == 101 && term[4] == 115 && term[5] == 97 && term[6] == 99);
    lemma_terminator_pops_without_insert(term, false, 0);
    assert(arm_spec(term, false) == Verdict::Done(pop2));

    let sub1 = term.subrange(2, 7);
    assert(sub1.len() == 5);
    assert(sub1[0] == SPACE && sub1[1] == 101 && sub1[2] == 115 && sub1[3] == 97 && sub1[4] == 99);
    assert(!body_relevant(sub1, 0));
    assert(body_relevant(sub1, 1));
    assert(word_len_at(sub1, 1) == 4) by {
        reveal_with_fuel(word_len_at, 6);
    }
    lemma_body_first_relevant(sub1, false, 1);
    assert(body_at(sub1, false, 1) == Verdict::Done(flush_spec(1)));

    let sub2 = term.subrange(3, 7);
    assert(sub2 =~= bare);
    assert(body_spec(sub2, false) == Verdict::Done(leave));

    let ds2 = seq![pop2, flush_spec(1), leave];
    let tail2 = seq![flush_spec(1), leave];
    let tail3 = seq![leave];
    assert(ds2.len() == 3 && ds2[0] == pop2 && ds2[1] == flush_spec(1) && ds2[2] == leave);
    assert(ds2.drop_first() =~= tail2);
    assert(tail2.len() == 2 && tail2[0] == flush_spec(1) && tail2[1] == leave);
    assert(tail2.drop_first() =~= tail3);
    assert(tail3.drop_first() =~= Seq::<Decision>::empty());
    assert(term.subrange(0, term.len() as int) =~= term);
    assert(term.subrange(2, term.len() as int) =~= sub1);
    assert(term.subrange(3, term.len() as int) =~= sub2);
    assert(decision_output(term, pop2) =~= seq![SEMICOLON, SEMICOLON]);
    assert(decision_output(sub1, flush_spec(1)) =~= seq![SPACE]);
    assert(decision_output(sub2, leave) =~= Seq::<u8>::empty());
    assert(run_consumed(tail3) == 0);
    assert(run_consumed(tail2) == 1);
    assert(run_consumed(ds2) == 3);
    assert(run_output(term, 3, Seq::<Decision>::empty()) =~= Seq::<u8>::empty());
    assert(run_output(term, 3, tail3) == decision_output(sub2, leave) + run_output(
        term,
        3,
        tail3.drop_first(),
    ));
    assert(run_output(term, 2, tail2) == decision_output(sub1, flush_spec(1)) + run_output(
        term,
        3,
        tail3,
    ));
    assert(run_output(term, 0, ds2) == decision_output(term, pop2) + run_output(term, 2, tail2));
    assert(run_output(term, 0, ds2) =~= seq![SEMICOLON, SEMICOLON, SPACE]);
}

} // verus!

