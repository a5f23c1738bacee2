use round_engine::content::{Author, Combination, CustomFont, Drawing, Index, Prompt, Submission, Vote};
use round_engine::driver::{Round, StageTransition};
use round_engine::game::{CombineConfig, DrawConfig, GameConfig, PromptConfig, StateData, VoteConfig};
use round_engine::protocol::{ServerMsgRoot, SubmitOutcome};
use round_engine::states::{GameState, VoteState};

const VOTING_MS: u64 = 10000;
const WINNER_MS: u64 = 5000;

fn author(id: u64) -> Author {
    Author {
        id,
        name: format!("participant-{}", id),
    }
}

/// Play draw, prompt and combine stages with participants `1..=k`, so
/// that the bracket starts with `k` live combinations, and return the
/// round just after the vote stage was entered, together with the
/// roster, the entry transition and the clock.
fn bracket_with(k: u64) -> (Round, Vec<u64>, Option<StageTransition>, u64) {
    let config = GameConfig {
        extra_time: 0,
        states: vec![
            StateData::Vote(VoteConfig {
                voting_duration: VOTING_MS,
                winner_duration: WINNER_MS,
            }),
            StateData::Combine(CombineConfig { duration: 30000 }),
            StateData::Prompt(PromptConfig {
                prompts_per_player: 1,
                duration: 60000,
            }),
            StateData::Draw(DrawConfig { duration: 60000 }),
        ],
    };
    let mut round = Round::new(config);
    let active: Vec<u64> = (1..=k).collect();
    round.advance(0, &active);
    for id in 1..=k {
        // drawings take indices 1..=k
        round.submit_drawing(Submission::new(author(id), Drawing { data: vec![id as u8] }));
    }
    round.advance(10, &active);
    for id in 1..=k {
        // prompts take indices k+1..=2k
        round.submit_prompt(Submission::new(
            author(id),
            Prompt {
                font: CustomFont(0),
                data: format!("prompt-{}", id),
            },
        ));
    }
    round.advance(20, &active);
    assert_eq!(round.state(), GameState::Combine);
    for id in 1..=k {
        // combinations take indices 2k+1..=3k
        assert_eq!(
            round.submit_combination(Submission::new(
                author(id),
                Combination {
                    drawing: Index(id),
                    prompt: Index(k + id),
                }
            )),
            SubmitOutcome::Accepted
        );
    }
    let now: u64 = 30;
    let t = round.advance(now, &active);
    assert_eq!(round.state(), GameState::Vote);
    (round, active, t, now)
}

fn pairing_of(t: &Option<StageTransition>) -> (Index, Index) {
    let notices = match t {
        Some(StageTransition::Entered { notices, .. }) => notices,
        Some(StageTransition::VotingStarted { notices }) => notices,
        other => panic!("expected a voting phase, got {:?}", other),
    };
    match &notices[0].message {
        ServerMsgRoot::Vote {
            duration,
            combination1,
            combination2,
        } => {
            assert_eq!(*duration, VOTING_MS);
            (*combination1, *combination2)
        }
        other => panic!("expected a vote notice, got {:?}", other),
    }
}

fn live_count(round: &Round) -> usize {
    round
        .store
        .combinations
        .iter()
        .filter(|c| !c.voted_out)
        .count()
}

#[test]
fn five_combinations_take_exactly_four_cycles() {
    // Five live combinations: after four voting/winner cycles exactly
    // one remains and is returned as the round winner.
    let (mut round, active, entry, mut now) = bracket_with(5);
    assert_eq!(live_count(&round), 5);
    let mut pairing = pairing_of(&entry);
    let mut cycles: usize = 0;
    loop {
        // Everyone votes for combination-1 of the pairing.
        for id in active.iter() {
            assert_eq!(
                round.submit_vote(Submission::new(
                    author(*id),
                    Vote {
                        combination: pairing.0
                    }
                )),
                SubmitOutcome::Accepted
            );
        }
        match round.advance(now, &active) {
            Some(StageTransition::WinnerStarted { winner, notices }) => {
                assert_eq!(winner, pairing.0);
                assert_eq!(notices.len(), active.len());
            }
            other => panic!("expected an elimination, got {:?}", other),
        }
        cycles += 1;
        assert_eq!(live_count(&round), 5 - cycles);
        now += WINNER_MS;
        let t = round.advance(now, &active);
        match &t {
            Some(StageTransition::VotingStarted { .. }) => {
                pairing = pairing_of(&t);
                // A fresh phase just started: it is not complete yet.
                assert!(round.advance(now, &active).is_none());
            }
            Some(StageTransition::RoundOver { winner }) => {
                assert_eq!(cycles, 4);
                assert_eq!(*winner, Some(pairing.0));
                assert_eq!(live_count(&round), 1);
                break;
            }
            other => panic!("expected next phase, got {:?}", other),
        }
    }
}

#[test]
fn tie_always_eliminates_combination_two() {
    let (mut round, active, entry, now) = bracket_with(2);
    let (c1, c2) = pairing_of(&entry);
    // One vote each: a tie.
    assert_eq!(
        round.submit_vote(Submission::new(author(active[0]), Vote { combination: c1 })),
        SubmitOutcome::Accepted
    );
    assert_eq!(
        round.submit_vote(Submission::new(author(active[1]), Vote { combination: c2 })),
        SubmitOutcome::Accepted
    );
    match round.advance(now, &active) {
        Some(StageTransition::WinnerStarted { winner, .. }) => assert_eq!(winner, c1),
        other => panic!("expected an elimination, got {:?}", other),
    }
    // Combination-2 of the pairing is the one voted out.
    let out: Vec<Index> = round
        .store
        .combinations
        .iter()
        .filter(|c| c.voted_out)
        .map(|c| c.index)
        .collect();
    assert_eq!(out, vec![c2]);
    // The display ends and the sole survivor wins the round.
    match round.advance(now + WINNER_MS, &active) {
        Some(StageTransition::RoundOver { winner }) => assert_eq!(winner, Some(c1)),
        other => panic!("expected round end, got {:?}", other),
    }
}

#[test]
fn invalid_vote_is_rejected_without_spending_the_vote() {
    let (mut round, active, entry, now) = bracket_with(2);
    let (c1, _c2) = pairing_of(&entry);
    // A vote naming no paired combination is rejected outright.
    assert_eq!(
        round.submit_vote(Submission::new(
            author(active[0]),
            Vote {
                combination: Index(999)
            }
        )),
        SubmitOutcome::InvalidReference
    );
    // The rejection did not mark the participant: a proper vote still
    // counts.
    assert_eq!(
        round.submit_vote(Submission::new(author(active[0]), Vote { combination: c1 })),
        SubmitOutcome::Accepted
    );
    // But only once.
    assert_eq!(
        round.submit_vote(Submission::new(author(active[0]), Vote { combination: c1 })),
        SubmitOutcome::Duplicate
    );
    assert_eq!(round.vote_state(), Some(VoteState::Voting));
    // Let the phase time out: one vote for combination-1, none for
    // combination-2; combination-1 survives.
    match round.advance(now + VOTING_MS, &active) {
        Some(StageTransition::WinnerStarted { winner, .. }) => assert_eq!(winner, c1),
        other => panic!("expected an elimination, got {:?}", other),
    }
    assert_eq!(round.vote_state(), Some(VoteState::Winner));
    // The winner display accepts no input.
    assert_eq!(
        round.submit_vote(Submission::new(author(active[1]), Vote { combination: c1 })),
        SubmitOutcome::WrongStage
    );
}

#[test]
fn single_combination_skips_voting() {
    // With one live combination the bracket has nothing to pair: the
    // vote stage only displays the winner.
    let (mut round, active, entry, now) = bracket_with(1);
    assert_eq!(round.vote_state(), Some(VoteState::Winner));
    match entry {
        Some(StageTransition::Entered { state, notices }) => {
            assert_eq!(state, GameState::Vote);
            assert_eq!(notices.len(), 1);
            match &notices[0].message {
                ServerMsgRoot::Winner {
                    duration,
                    drawing,
                    prompt,
                } => {
                    assert_eq!(*duration, WINNER_MS);
                    assert_eq!(*drawing, Index(1));
                    assert_eq!(*prompt, Index(2));
                }
                other => panic!("expected a winner notice, got {:?}", other),
            }
        }
        other => panic!("expected stage entry, got {:?}", other),
    }
    match round.advance(now + WINNER_MS, &active) {
        Some(StageTransition::RoundOver { winner }) => assert_eq!(winner, Some(Index(3))),
        other => panic!("expected round end, got {:?}", other),
    }
}

#[test]
fn vote_stage_without_combinations_times_out_empty() {
    let config = GameConfig {
        extra_time: 0,
        states: vec![StateData::Vote(VoteConfig {
            voting_duration: VOTING_MS,
            winner_duration: WINNER_MS,
        })],
    };
    let mut round = Round::new(config);
    let active = vec![1, 2];
    match round.advance(0, &active) {
        Some(StageTransition::Entered { state, notices }) => {
            assert_eq!(state, GameState::Vote);
            assert!(notices.is_empty());
        }
        other => panic!("expected stage entry, got {:?}", other),
    }
    assert!(round.advance(WINNER_MS - 1, &active).is_none());
    match round.advance(WINNER_MS, &active) {
        Some(StageTransition::RoundOver { winner }) => assert_eq!(winner, None),
        other => panic!("expected round end, got {:?}", other),
    }
}

#[test]
fn full_long_round_runs_to_a_winner() {
    // The whole standard round: three draw stages, two
    // prompt/combine/vote passes, driven tick by tick with everyone
    // submitting as soon as a stage opens.
    let mut round = Round::new(GameConfig::long());
    let active: Vec<u64> = vec![10, 20];
    let mut now: u64 = 0;
    let mut pairing: Option<(Index, Index)> = None;
    let mut outcome: Option<Option<Index>> = None;
    for _ in 0..2000 {
        match round.state() {
            GameState::Draw => {
                for id in &active {
                    let _ = round.submit_drawing(Submission::new(
                        author(*id),
                        Drawing { data: vec![*id as u8] },
                    ));
                }
            }
            GameState::Prompt => {
                for id in &active {
                    let _ = round.submit_prompt(Submission::new(
                        author(*id),
                        Prompt {
                            font: CustomFont(0),
                            data: format!("prompt-{}-{}", id, now),
                        },
                    ));
                }
            }
            GameState::Combine => {
                for id in &active {
                    let drawing = round
                        .store
                        .drawings
                        .iter()
                        .find(|d| !d.consumed)
                        .map(|d| d.index);
                    let prompt = round
                        .store
                        .prompts
                        .iter()
                        .find(|p| !p.consumed)
                        .map(|p| p.index);
                    if let (Some(drawing), Some(prompt)) = (drawing, prompt) {
                        let _ = round.submit_combination(Submission::new(
                            author(*id),
                            Combination { drawing, prompt },
                        ));
                    }
                }
            }
            GameState::Vote => {
                if let Some((c1, _)) = pairing {
                    for id in &active {
                        let _ = round
                            .submit_vote(Submission::new(author(*id), Vote { combination: c1 }));
                    }
                }
            }
            GameState::Init => {}
        }
        match round.advance(now, &active) {
            Some(StageTransition::Entered { notices, .. })
            | Some(StageTransition::VotingStarted { notices }) => {
                pairing = notices.iter().find_map(|n| match &n.message {
                    ServerMsgRoot::Vote {
                        combination1,
                        combination2,
                        ..
                    } => Some((*combination1, *combination2)),
                    _ => None,
                });
            }
            Some(StageTransition::WinnerStarted { .. }) => {
                pairing = None;
            }
            Some(StageTransition::RoundOver { winner }) => {
                outcome = Some(winner);
                break;
            }
            None => {}
        }
        now += 500;
    }
    // The round terminated, the bracket returned a final winner, and
    // every stage left its content behind: 2 drawings per draw stage
    // across 3 draw stages, 3 + 4 prompts per participant, and one
    // combination per participant per combine stage.
    let winner = outcome.expect("round did not finish");
    assert!(winner.is_some());
    assert_eq!(round.store.drawings.len(), 6);
    assert_eq!(round.store.prompts.len(), 14);
    assert_eq!(round.store.combinations.len(), 4);
    // Each bracket eliminates one combination per cycle; two brackets
    // ran, ending with a sole live survivor... the first bracket ends
    // with one live combination, the second starts from it plus the
    // two new ones.
    let live: Vec<Index> = round
        .store
        .combinations
        .iter()
        .filter(|c| !c.voted_out)
        .map(|c| c.index)
        .collect();
    assert_eq!(live, vec![winner.unwrap()]);
}

#[test]
fn votes_from_outside_the_roster_are_rejected() {
    let (mut round, active, entry, _now) = bracket_with(2);
    let (c1, _c2) = pairing_of(&entry);
    // An id that was not active when the phase started may not vote.
    assert_eq!(
        round.submit_vote(Submission::new(author(99), Vote { combination: c1 })),
        SubmitOutcome::NotActive
    );
    // Roster members still vote normally.
    assert_eq!(
        round.submit_vote(Submission::new(author(active[0]), Vote { combination: c1 })),
        SubmitOutcome::Accepted
    );
}
