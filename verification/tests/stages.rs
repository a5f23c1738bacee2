use round_engine::content::{Author, Combination, Drawing, Index, Indexer, Prompt, Submission};
use round_engine::content::CustomFont;
use round_engine::distribute::{assign_slices, split_point};
use round_engine::driver::{Round, StageTransition};
use round_engine::game::{CombineConfig, DrawConfig, GameConfig, PromptConfig, StateData};
use round_engine::idset::IdSet;
use round_engine::protocol::{ServerMsgRoot, SubmitOutcome};
use round_engine::states::GameState;
use round_engine::timing::check_deadline;

fn author(id: u64) -> Author {
    Author {
        id,
        name: format!("participant-{}", id),
    }
}

fn drawing(byte: u8) -> Drawing {
    Drawing { data: vec![byte] }
}

fn prompt(text: &str) -> Prompt {
    Prompt {
        font: CustomFont(0),
        data: text.to_string(),
    }
}

#[test]
fn long_config_shape() {
    let mut config = GameConfig::long();
    assert_eq!(config.extra_time, 3000);
    assert_eq!(config.states.len(), 9);
    // The stack is consumed back-to-front: a draw stage comes first.
    let first = config.next_state().unwrap();
    assert_eq!(first, StateData::Draw(DrawConfig { duration: 180000 }));
    assert_eq!(config.states.len(), 8);
}

#[test]
fn indexer_counts_up_and_never_reuses() {
    let mut indexer = Indexer::new();
    assert_eq!(indexer.next(), Index(1));
    assert_eq!(indexer.next(), Index(2));
    assert_eq!(indexer.next(), Index(3));
}

#[test]
fn id_set_dedups() {
    let mut s = IdSet::new();
    assert!(!s.contains(7));
    s.insert(7);
    s.insert(7);
    s.insert(9);
    assert!(s.contains(7));
    assert!(s.contains(9));
    assert_eq!(s.len(), 2);
}

#[test]
fn deadline_fires_at_exact_boundary() {
    // duration 120 s, extra time 3 s: fires at exactly 123 s.
    assert!(!check_deadline(122999, 0, 120000, 3000));
    assert!(check_deadline(123000, 0, 120000, 3000));
    assert!(check_deadline(200000, 0, 120000, 3000));
}

#[test]
fn split_points_for_seven_items_three_participants() {
    assert_eq!(split_point(7, 3, 0), 0);
    assert_eq!(split_point(7, 3, 1), 3);
    assert_eq!(split_point(7, 3, 2), 5);
    assert_eq!(split_point(7, 3, 3), 7);
}

#[test]
fn partition_seven_drawings_five_prompts_three_participants() {
    // Seven drawings for three participants: counts {3, 2, 2}, the
    // first participant in shuffled order gets the extra one.
    let pool: Vec<Index> = (1..=7).map(Index).collect();
    let slices = assign_slices(&pool, 3);
    let lens: Vec<usize> = slices.iter().map(|s| s.len()).collect();
    assert_eq!(lens, vec![3, 2, 2]);
    // Five prompts for three participants: counts {2, 2, 1}.
    let pool: Vec<Index> = (1..=5).map(Index).collect();
    let slices = assign_slices(&pool, 3);
    let lens: Vec<usize> = slices.iter().map(|s| s.len()).collect();
    assert_eq!(lens, vec![2, 2, 1]);
}

#[test]
fn partition_has_no_overlap_and_no_gap() {
    let pool: Vec<Index> = (1..=10).map(Index).collect();
    let slices = assign_slices(&pool, 4);
    assert_eq!(slices.len(), 4);
    let flat: Vec<Index> = slices.into_iter().flatten().collect();
    // Consecutive slices of the pool: concatenation restores it whole,
    // so the union is exact and duplicates are impossible.
    assert_eq!(flat, pool);
}

#[test]
fn partition_with_pool_smaller_than_roster() {
    // Insufficient content: quotas drop to zero rather than failing.
    let pool: Vec<Index> = vec![Index(1)];
    let slices = assign_slices(&pool, 3);
    let lens: Vec<usize> = slices.iter().map(|s| s.len()).collect();
    assert_eq!(lens, vec![1, 0, 0]);
}

#[test]
fn draw_stage_deadline_with_missing_participant() {
    // Draw stage, duration 120 s, extra time 3 s, three active
    // participants; two submit early, one never does. At 123 s the
    // stage finalizes via the deadline with exactly two drawings
    // recorded.
    let config = GameConfig {
        extra_time: 3000,
        states: vec![StateData::Draw(DrawConfig { duration: 120000 })],
    };
    let mut round = Round::new(config);
    let active = vec![1, 2, 3];
    let entered = round.advance(0, &active);
    match entered {
        Some(StageTransition::Entered { state, notices }) => {
            assert_eq!(state, GameState::Draw);
            assert_eq!(notices.len(), 3);
            for (n, id) in notices.iter().zip(active.iter()) {
                assert_eq!(n.participant, *id);
                match &n.message {
                    ServerMsgRoot::Draw { duration } => assert_eq!(*duration, 120000),
                    other => panic!("wrong notice: {:?}", other),
                }
            }
        }
        other => panic!("expected stage entry, got {:?}", other),
    }
    assert_eq!(
        round.submit_drawing(Submission::new(author(1), drawing(1))),
        SubmitOutcome::Accepted
    );
    assert_eq!(
        round.submit_drawing(Submission::new(author(2), drawing(2))),
        SubmitOutcome::Accepted
    );
    // A second submission from the same participant is rejected and
    // not materialized.
    assert_eq!(
        round.submit_drawing(Submission::new(author(2), drawing(9))),
        SubmitOutcome::Duplicate
    );
    // Not everyone submitted and the deadline has not passed: repeated
    // ticks change nothing.
    assert!(round.advance(60000, &active).is_none());
    assert!(round.advance(122999, &active).is_none());
    assert_eq!(round.store.drawings.len(), 2);
    // At 123 s the deadline trigger fires; the queue is empty, so the
    // round is over, with exactly the two accepted drawings recorded.
    match round.advance(123000, &active) {
        Some(StageTransition::RoundOver { winner }) => assert_eq!(winner, None),
        other => panic!("expected round end, got {:?}", other),
    }
    assert_eq!(round.store.drawings.len(), 2);
    assert!(round.is_over());
}

#[test]
fn draw_stage_completes_when_everyone_submitted() {
    let config = GameConfig {
        extra_time: 3000,
        states: vec![StateData::Draw(DrawConfig { duration: 120000 })],
    };
    let mut round = Round::new(config);
    let active = vec![4, 5];
    round.advance(0, &active);
    round.submit_drawing(Submission::new(author(4), drawing(1)));
    assert!(round.advance(10, &active).is_none());
    round.submit_drawing(Submission::new(author(5), drawing(2)));
    // Everyone submitted: the stage finalizes long before the deadline.
    assert!(round.advance(20, &active).is_some());
}

#[test]
fn submissions_for_the_wrong_stage_are_rejected() {
    let config = GameConfig {
        extra_time: 0,
        states: vec![StateData::Draw(DrawConfig { duration: 1000 })],
    };
    let mut round = Round::new(config);
    let active = vec![1];
    round.advance(0, &active);
    assert_eq!(
        round.submit_prompt(Submission::new(author(1), prompt("nope"))),
        SubmitOutcome::WrongStage
    );
    assert_eq!(
        round.submit_combination(Submission::new(
            author(1),
            Combination {
                drawing: Index(1),
                prompt: Index(2)
            }
        )),
        SubmitOutcome::WrongStage
    );
    assert_eq!(round.store.drawings.len(), 0);
    assert_eq!(round.store.prompts.len(), 0);
}

#[test]
fn prompt_stage_cap_is_count_based_not_per_participant() {
    // Two active participants, two prompts per participant: the cap is
    // four in total, and one participant may supply all of them.
    let config = GameConfig {
        extra_time: 0,
        states: vec![StateData::Prompt(PromptConfig {
            prompts_per_player: 2,
            duration: 60000,
        })],
    };
    let mut round = Round::new(config);
    let active = vec![1, 2];
    round.advance(0, &active);
    for k in 0..3 {
        assert_eq!(
            round.submit_prompt(Submission::new(author(1), prompt(&format!("p{}", k)))),
            SubmitOutcome::Accepted
        );
    }
    assert!(round.advance(10, &active).is_none());
    assert_eq!(
        round.submit_prompt(Submission::new(author(1), prompt("p3"))),
        SubmitOutcome::Accepted
    );
    // Four accepted prompts reach the cap.
    assert!(round.advance(20, &active).is_some());
    assert_eq!(round.store.prompts.len(), 4);
}

#[test]
fn combine_stage_consumes_and_rejects_invalid_references() {
    let config = GameConfig {
        extra_time: 0,
        states: vec![
            // consumed back-to-front: draw, then prompt, then combine
            StateData::Combine(CombineConfig { duration: 30000 }),
            StateData::Prompt(PromptConfig {
                prompts_per_player: 1,
                duration: 60000,
            }),
            StateData::Draw(DrawConfig { duration: 60000 }),
        ],
    };
    let mut round = Round::new(config);
    let active = vec![1, 2];
    round.advance(0, &active);
    assert_eq!(round.state(), GameState::Draw);
    round.submit_drawing(Submission::new(author(1), drawing(1))); // Index 1
    round.submit_drawing(Submission::new(author(2), drawing(2))); // Index 2
    round.advance(10, &active);
    assert_eq!(round.state(), GameState::Prompt);
    round.submit_prompt(Submission::new(author(1), prompt("a"))); // Index 3
    round.submit_prompt(Submission::new(author(2), prompt("b"))); // Index 4
    let t = round.advance(20, &active);
    assert_eq!(round.state(), GameState::Combine);
    // Each participant's combine notice assigns exactly one drawing
    // and one prompt: pools of two split over two participants.
    match t {
        Some(StageTransition::Entered { state, notices }) => {
            assert_eq!(state, GameState::Combine);
            assert_eq!(notices.len(), 2);
            let mut seen_drawings = Vec::new();
            let mut seen_prompts = Vec::new();
            for n in &notices {
                match &n.message {
                    ServerMsgRoot::Combine {
                        duration,
                        drawings,
                        prompts,
                    } => {
                        assert_eq!(*duration, 30000);
                        assert_eq!(drawings.len(), 1);
                        assert_eq!(prompts.len(), 1);
                        seen_drawings.push(drawings[0]);
                        seen_prompts.push(prompts[0]);
                    }
                    other => panic!("wrong notice: {:?}", other),
                }
            }
            // The two drawings are partitioned: both handed out, none
            // twice. The same for the prompts.
            seen_drawings.sort_by_key(|i| i.0);
            seen_prompts.sort_by_key(|i| i.0);
            assert_eq!(seen_drawings, vec![Index(1), Index(2)]);
            assert_eq!(seen_prompts, vec![Index(3), Index(4)]);
        }
        other => panic!("expected combine entry, got {:?}", other),
    }
    // Pair drawing 1 with prompt 3.
    assert_eq!(
        round.submit_combination(Submission::new(
            author(1),
            Combination {
                drawing: Index(1),
                prompt: Index(3)
            }
        )),
        SubmitOutcome::Accepted
    );
    // The same participant may not combine twice.
    assert_eq!(
        round.submit_combination(Submission::new(
            author(1),
            Combination {
                drawing: Index(2),
                prompt: Index(4)
            }
        )),
        SubmitOutcome::Duplicate
    );
    // Drawing 1 is consumed: naming it again is an invalid reference.
    assert_eq!(
        round.submit_combination(Submission::new(
            author(2),
            Combination {
                drawing: Index(1),
                prompt: Index(4)
            }
        )),
        SubmitOutcome::InvalidReference
    );
    // A made-up index is an invalid reference too.
    assert_eq!(
        round.submit_combination(Submission::new(
            author(2),
            Combination {
                drawing: Index(99),
                prompt: Index(4)
            }
        )),
        SubmitOutcome::InvalidReference
    );
    // Rejections leave no trace: still one combination, and the
    // participant can submit a valid one.
    assert_eq!(round.store.combinations.len(), 1);
    assert_eq!(
        round.submit_combination(Submission::new(
            author(2),
            Combination {
                drawing: Index(2),
                prompt: Index(4)
            }
        )),
        SubmitOutcome::Accepted
    );
    assert_eq!(round.store.combinations.len(), 2);
}

#[test]
fn abort_discards_stage_and_queue_but_keeps_content() {
    let config = GameConfig {
        extra_time: 0,
        states: vec![
            StateData::Prompt(PromptConfig {
                prompts_per_player: 1,
                duration: 60000,
            }),
            StateData::Draw(DrawConfig { duration: 60000 }),
        ],
    };
    let mut round = Round::new(config);
    let active = vec![1, 2];
    round.advance(0, &active);
    round.submit_drawing(Submission::new(author(1), drawing(1)));
    round.abort();
    assert!(round.is_over());
    assert_eq!(round.state(), GameState::Init);
    // Persisted content survives the teardown.
    assert_eq!(round.store.drawings.len(), 1);
    // Further ticks do nothing.
    assert!(round.advance(99999, &active).is_none());
}

#[test]
fn empty_roster_completes_stages_by_coverage() {
    let config = GameConfig {
        extra_time: 5,
        states: vec![StateData::Draw(DrawConfig { duration: 60000 })],
    };
    let mut round = Round::new(config);
    let active: Vec<u64> = vec![];
    let t = round.advance(0, &active);
    match t {
        Some(StageTransition::Entered { state, notices }) => {
            assert_eq!(state, GameState::Draw);
            assert!(notices.is_empty());
        }
        other => panic!("expected stage entry, got {:?}", other),
    }
    // With nobody active, everyone-submitted holds vacuously.
    assert!(round.advance(1, &active).is_some());
    assert!(round.is_over());
}

#[test]
fn both_triggers_together_finalize_only_once() {
    // At finalize time both completion triggers hold at once: the one
    // participant has submitted and the deadline has long passed.
    // A single tick pops exactly one queued stage, and the freshly
    // entered stage is not finalized along with it.
    let config = GameConfig {
        extra_time: 0,
        states: vec![
            StateData::Prompt(PromptConfig {
                prompts_per_player: 1,
                duration: 60000,
            }),
            StateData::Draw(DrawConfig { duration: 1000 }),
        ],
    };
    let mut round = Round::new(config);
    let active = vec![1];
    round.advance(0, &active);
    round.submit_drawing(Submission::new(author(1), drawing(1)));
    match round.advance(5000, &active) {
        Some(StageTransition::Entered { state, .. }) => assert_eq!(state, GameState::Prompt),
        other => panic!("expected one stage entry, got {:?}", other),
    }
    // The next tick at the same instant finds a fresh, incomplete
    // stage: no second pop, no duplicated content.
    assert!(round.advance(5000, &active).is_none());
    assert_eq!(round.state(), GameState::Prompt);
    assert_eq!(round.store.drawings.len(), 1);
}

#[test]
fn submissions_from_outside_the_roster_are_rejected() {
    // Only the participants active when the stage was entered may
    // submit; an unknown id is rejected with no state change.
    let config = GameConfig {
        extra_time: 0,
        states: vec![StateData::Draw(DrawConfig { duration: 60000 })],
    };
    let mut round = Round::new(config);
    let active = vec![1, 2];
    round.advance(0, &active);
    assert_eq!(
        round.submit_drawing(Submission::new(author(77), drawing(1))),
        SubmitOutcome::NotActive
    );
    assert_eq!(round.store.drawings.len(), 0);
    // A roster member is accepted as usual.
    assert_eq!(
        round.submit_drawing(Submission::new(author(1), drawing(1))),
        SubmitOutcome::Accepted
    );
}
