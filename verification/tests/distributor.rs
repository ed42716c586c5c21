use flagrant::distributor::{bump, distribute, select, Candidate};

fn candidates(list: &[(u16, u8)]) -> Vec<Candidate> {
    list.iter().map(|&(id, weight)| Candidate { id, weight, accumulator: weight as i32 }).collect()
}

fn run(list: &[(u16, u8)], rounds: usize) -> (Vec<usize>, Vec<Candidate>) {
    let mut state = candidates(list);
    let mut chosen = Vec::new();
    for _ in 0..rounds {
        chosen.push(distribute(&mut state));
    }
    (chosen, state)
}

#[test]
fn the_largest_accumulator_is_chosen() {
    let state = vec![
        Candidate { id: 1, weight: 10, accumulator: 5 },
        Candidate { id: 2, weight: 10, accumulator: 50 },
        Candidate { id: 3, weight: 10, accumulator: -3 },
    ];
    assert_eq!(select(&state), 1);
}

#[test]
fn ties_go_to_the_smallest_id() {
    let state = vec![
        Candidate { id: 7, weight: 50, accumulator: 50 },
        Candidate { id: 3, weight: 50, accumulator: 50 },
        Candidate { id: 5, weight: 0, accumulator: 50 },
    ];
    assert_eq!(select(&state), 1);
    let state = vec![
        Candidate { id: 3, weight: 50, accumulator: 50 },
        Candidate { id: 3, weight: 50, accumulator: 50 },
    ];
    assert_eq!(select(&state), 0);
}

#[test]
fn the_chosen_one_loses_100_and_all_gain_their_weight() {
    let mut state = candidates(&[(1, 30), (2, 70)]);
    bump(&mut state, 1);
    assert_eq!(
        state,
        vec![
            Candidate { id: 1, weight: 30, accumulator: 60 },
            Candidate { id: 2, weight: 70, accumulator: 40 },
        ]
    );
}

#[test]
fn a_single_variant_is_always_chosen_and_stays_at_100() {
    let mut state = candidates(&[(1, 100)]);
    for _ in 0..10 {
        assert_eq!(distribute(&mut state), 0);
        assert_eq!(state[0].accumulator, 100);
    }
}

#[test]
fn thirty_to_seventy() {
    // control "A" has the smaller id and the weight 30, "B" the weight 70
    let (chosen, state) = run(&[(1, 30), (2, 70)], 10);
    let names: String = chosen.iter().map(|&i| if i == 0 { 'A' } else { 'B' }).collect();
    assert_eq!(names, "BABBABBBAB");
    assert_eq!(chosen.iter().filter(|&&i| i == 0).count(), 3);
    assert_eq!(chosen.iter().filter(|&&i| i == 1).count(), 7);
    // after a full cycle the accumulators are back where they began
    assert_eq!(state, candidates(&[(1, 30), (2, 70)]));
}

#[test]
fn hits_follow_the_weights() {
    let weights = [(4, 10), (2, 30), (9, 60)];
    let (chosen, _) = run(&weights, 100);
    for (position, &(_, weight)) in weights.iter().enumerate() {
        assert_eq!(chosen.iter().filter(|&&i| i == position).count(), weight as usize);
    }
}

#[test]
fn no_variant_runs_a_whole_hit_ahead_of_its_weight() {
    let weights = [(1, 1), (2, 7), (3, 52), (4, 1), (5, 39)];
    let mut state = candidates(&weights);
    let mut hits = [0i64; 5];
    let mut sum_of_accumulators;
    for round in 1..=600i64 {
        hits[distribute(&mut state)] += 1;
        sum_of_accumulators = state.iter().map(|c| c.accumulator as i64).sum::<i64>();
        assert_eq!(sum_of_accumulators, 100);
        for (i, &(_, weight)) in weights.iter().enumerate() {
            let ahead = 100 * hits[i] - round * weight as i64;
            assert!(ahead < 100, "round {round}, variant {i}");
            assert!(2 * -ahead <= 100 + 99 * 3, "round {round}, variant {i}");
            assert!(2 * -ahead <= 100 + 99 * (100 - weight as i64), "round {round}, variant {i}");
            assert!(state[i].accumulator as i64 > weight as i64 - 100);
        }
    }
}

#[test]
fn up_to_four_variants_stay_within_one_hit() {
    // every way to give 100 percent to four variants, some without weight;
    // after 100 evaluations the accumulators are back where they began
    for a in 0..=100u8 {
        for b in 0..=100 - a {
            for c in (0..=100 - a - b).step_by(if a % 5 == 0 { 1 } else { 7 }) {
                let weights = [a, b, c, 100 - a - b - c];
                let mut state: Vec<Candidate> = weights
                    .iter()
                    .enumerate()
                    .map(|(i, &w)| Candidate { id: i as u16, weight: w, accumulator: w as i32 })
                    .collect();
                let mut hits = [0i32; 4];
                for round in 1..=100 {
                    hits[distribute(&mut state)] += 1;
                    for i in 0..4 {
                        let ahead = 100 * hits[i] - round * weights[i] as i32;
                        assert!(-100 < ahead && ahead < 100, "{weights:?} round {round}");
                    }
                }
                assert!(state.iter().all(|c| c.accumulator == c.weight as i32));
            }
        }
    }
}

#[test]
fn five_variants_can_fall_more_than_one_hit_behind() {
    let weights = [(1, 1), (2, 7), (3, 52), (4, 1), (5, 39)];
    let mut state = candidates(&weights);
    let mut hits = [0i64; 5];
    let mut worst = 0i64;
    for round in 1..=600i64 {
        hits[distribute(&mut state)] += 1;
        for (i, &(_, weight)) in weights.iter().enumerate() {
            worst = worst.min(100 * hits[i] - round * weight as i64);
        }
    }
    assert_eq!(worst, -106);
}
