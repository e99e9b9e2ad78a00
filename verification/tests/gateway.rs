use key_gateway::direction::Direction;
use key_gateway::error::InputError;
use key_gateway::key::Key;
use key_gateway::press::{key_press, KeyEvent, PressCall, PressStep};
use key_gateway::text::{key_type, TextCall, TextStep};

/// A call of either kind.
enum Call {
    Press(PressCall),
    Text(TextCall),
}

/// What the mechanism is handed in one injection.
#[derive(Clone, Debug, PartialEq)]
enum Injection {
    Key(KeyEvent),
    Text(String),
}

enum Step {
    Acquire,
    Inject(Injection),
    Finish(Result<(), InputError>),
}

impl Call {
    fn advance(&mut self, accepted: bool) -> Step {
        match self {
            Call::Press(call) => match call.advance(accepted) {
                PressStep::Acquire => Step::Acquire,
                PressStep::Inject(event) => Step::Inject(Injection::Key(event)),
                PressStep::Finish(result) => Step::Finish(result),
            },
            Call::Text(call) => match call.advance(accepted) {
                TextStep::Acquire => Step::Acquire,
                TextStep::Inject(text) => Step::Inject(Injection::Text(text)),
                TextStep::Finish(result) => Step::Finish(result),
            },
        }
    }
}

/// Callers that share one lock and one mechanism, moved one turn at a time.
/// A caller that has asked for the lock while another holds it is blocked:
/// its turns pass until the lock is free.
struct Callers {
    calls: Vec<Call>,
    blocked: Vec<bool>,
    results: Vec<Option<Result<(), InputError>>>,
    holder: Option<usize>,
    observed: Vec<(usize, Injection)>,
}

impl Callers {
    fn new(calls: Vec<Call>) -> Callers {
        let count = calls.len();
        Callers {
            calls,
            blocked: vec![false; count],
            results: vec![None; count],
            holder: None,
            observed: Vec::new(),
        }
    }

    fn turn(&mut self, caller: usize, accepted: bool) {
        if self.results[caller].is_some() {
            return;
        }
        if self.blocked[caller] {
            if self.holder.is_none() {
                self.holder = Some(caller);
                self.blocked[caller] = false;
            }
            return;
        }
        match self.calls[caller].advance(accepted) {
            Step::Acquire => {
                if self.holder.is_none() {
                    self.holder = Some(caller);
                } else {
                    self.blocked[caller] = true;
                }
            }
            Step::Inject(injection) => {
                assert_eq!(self.holder, Some(caller), "an injection outside the lock");
                self.observed.push((caller, injection));
            }
            Step::Finish(result) => {
                assert_eq!(self.holder, Some(caller), "a call ended outside the lock");
                self.holder = None;
                self.results[caller] = Some(result);
            }
        }
    }

    fn all_over(&self) -> bool {
        self.results.iter().all(|result| result.is_some())
    }

    fn observed_of(&self, caller: usize) -> Vec<Injection> {
        let mut own = Vec::new();
        for (from, injection) in &self.observed {
            if *from == caller {
                own.push(injection.clone());
            }
        }
        own
    }

    /// Whether between two injections of one caller there is none of another.
    fn serialized(&self) -> bool {
        for i in 0..self.observed.len() {
            for k in i + 1..self.observed.len() {
                if self.observed[i].0 == self.observed[k].0 {
                    for j in i + 1..k {
                        if self.observed[j].0 != self.observed[i].0 {
                            return false;
                        }
                    }
                }
            }
        }
        true
    }
}

fn key(key: Key, direction: Direction) -> Injection {
    Injection::Key(KeyEvent { key, direction })
}

fn three_callers() -> Callers {
    Callers::new(vec![
        Call::Press(key_press("down", vec![32, 33, 34]).unwrap()),
        Call::Press(key_press("up", vec![34, 33, 32]).unwrap()),
        Call::Text(key_type(String::from("hi"))),
    ])
}

/// A fixed sequence of numbers that looks shuffled.
fn next(seed: &mut u64) -> u64 {
    *seed = seed.wrapping_mul(6364136223846793005).wrapping_add(1442695040888963407);
    *seed >> 33
}

#[test]
fn callers_taking_turns_are_served_one_after_the_other() {
    let mut callers = three_callers();
    let mut turn = 0;
    while !callers.all_over() {
        callers.turn(turn % 3, true);
        turn += 1;
    }
    assert_eq!(
        callers.observed,
        vec![
            (0, key(Key::A, Direction::Press)),
            (0, key(Key::B, Direction::Press)),
            (0, key(Key::C, Direction::Press)),
            (1, key(Key::C, Direction::Release)),
            (1, key(Key::B, Direction::Release)),
            (1, key(Key::A, Direction::Release)),
            (2, Injection::Text(String::from("hi"))),
        ]
    );
    assert_eq!(callers.results, vec![Some(Ok(())), Some(Ok(())), Some(Ok(()))]);
}

#[test]
fn a_caller_that_comes_late_waits_for_the_holder() {
    let mut callers = three_callers();
    callers.turn(1, true);
    callers.turn(1, true);
    callers.turn(0, true);
    callers.turn(2, true);
    callers.turn(0, true);
    callers.turn(1, true);
    callers.turn(0, true);
    callers.turn(1, true);
    callers.turn(2, true);
    callers.turn(1, true);
    assert_eq!(callers.results[1], Some(Ok(())));
    assert_eq!(callers.holder, None);
    while !callers.all_over() {
        callers.turn(0, true);
        callers.turn(2, true);
    }
    assert_eq!(
        callers.observed,
        vec![
            (1, key(Key::C, Direction::Release)),
            (1, key(Key::B, Direction::Release)),
            (1, key(Key::A, Direction::Release)),
            (0, key(Key::A, Direction::Press)),
            (0, key(Key::B, Direction::Press)),
            (0, key(Key::C, Direction::Press)),
            (2, Injection::Text(String::from("hi"))),
        ]
    );
}

#[test]
fn a_failed_call_frees_the_lock_for_the_next() {
    let mut callers = Callers::new(vec![
        Call::Press(key_press("down", vec![32, 58, 33]).unwrap()),
        Call::Press(key_press("down", vec![40]).unwrap()),
    ]);
    let mut turn = 0;
    while !callers.all_over() {
        callers.turn(turn % 2, true);
        turn += 1;
    }
    assert_eq!(
        callers.observed,
        vec![(0, key(Key::A, Direction::Press)), (1, key(Key::I, Direction::Press))]
    );
    assert_eq!(callers.results, vec![Some(Err(InputError::InvalidKeyCode)), Some(Ok(()))]);
}

#[test]
fn a_refused_call_frees_the_lock_for_the_next() {
    let mut callers = Callers::new(vec![
        Call::Text(key_type(String::from("first"))),
        Call::Text(key_type(String::from("second"))),
    ]);
    callers.turn(0, true);
    callers.turn(1, true);
    callers.turn(0, true);
    callers.turn(1, true);
    callers.turn(0, false);
    assert_eq!(callers.results[0], Some(Err(InputError::InjectionFailure)));
    while !callers.all_over() {
        callers.turn(1, true);
    }
    assert_eq!(
        callers.observed,
        vec![
            (0, Injection::Text(String::from("first"))),
            (1, Injection::Text(String::from("second"))),
        ]
    );
    assert_eq!(callers.results[1], Some(Ok(())));
}

#[test]
fn no_schedule_interleaves_two_calls() {
    let mut seed = 2024;
    for _ in 0..200 {
        let mut callers = Callers::new(vec![
            Call::Press(key_press("down", vec![3, 28, 32]).unwrap()),
            Call::Press(key_press("up", vec![32, 28, 3]).unwrap()),
            Call::Text(key_type(String::from("typed"))),
            Call::Press(key_press("down", vec![0, 1, 2, 99, 4]).unwrap()),
            Call::Press(key_press("down", vec![]).unwrap()),
            Call::Text(key_type(String::new())),
        ]);
        let mut turns = 0;
        while !callers.all_over() {
            let caller = (next(&mut seed) % 6) as usize;
            let accepted = next(&mut seed) % 5 != 0;
            callers.turn(caller, accepted);
            assert!(callers.serialized());
            turns += 1;
            assert!(turns < 100_000);
        }
        let planned = vec![
            vec![
                key(Key::Control, Direction::Press),
                key(Key::Shift, Direction::Press),
                key(Key::A, Direction::Press),
            ],
            vec![
                key(Key::A, Direction::Release),
                key(Key::Shift, Direction::Release),
                key(Key::Control, Direction::Release),
            ],
            vec![Injection::Text(String::from("typed"))],
            vec![
                key(Key::Alt, Direction::Press),
                key(Key::Backspace, Direction::Press),
                key(Key::CapsLock, Direction::Press),
            ],
            vec![],
            vec![],
        ];
        for caller in 0..6 {
            let own = callers.observed_of(caller);
            assert!(own.len() <= planned[caller].len());
            assert_eq!(own[..], planned[caller][..own.len()]);
            if callers.results[caller] == Some(Ok(())) {
                assert_eq!(own, planned[caller]);
            }
        }
        assert_eq!(callers.results[4], Some(Ok(())));
        assert_eq!(callers.results[5], Some(Ok(())));
        assert_ne!(callers.results[3], Some(Ok(())));
    }
}
