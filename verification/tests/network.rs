use plate::network::{mean, mix, Plate, PlateBuffers, PlateParams};
use plate::{
    DECAY_DIFFUSION_1_1, DECAY_DIFFUSION_1_2, DECAY_DIFFUSION_2_1, DECAY_DIFFUSION_2_2, DELAY_1,
    DELAY_2, DELAY_3, DELAY_4, EXCURSION, INPUT_DIFFUSION_1_1, INPUT_DIFFUSION_1_2,
    INPUT_DIFFUSION_2_1, INPUT_DIFFUSION_2_2,
};
use std::collections::VecDeque;

/// Storage for one reverberator, every cell holding `fill`.
struct Rig<T> {
    predelay: Vec<T>,
    prefilter: Vec<T>,
    input_diffusion_1_1: Vec<T>,
    input_diffusion_1_2: Vec<T>,
    input_diffusion_2_1: Vec<T>,
    input_diffusion_2_2: Vec<T>,
    decay_diffusion_1_1: Vec<T>,
    decay_diffusion_1_2: Vec<T>,
    decay_diffusion_2_1: Vec<T>,
    decay_diffusion_2_2: Vec<T>,
    dumping_1: Vec<T>,
    dumping_2: Vec<T>,
    delay_1: Vec<T>,
    delay_2: Vec<T>,
    delay_3: Vec<T>,
    delay_4: Vec<T>,
    tank: Vec<T>,
}

impl<T: Clone> Rig<T> {
    fn new(fill: T) -> Rig<T> {
        Rig {
            predelay: vec![fill.clone(); 4096],
            prefilter: vec![fill.clone(); 1],
            input_diffusion_1_1: vec![fill.clone(); INPUT_DIFFUSION_1_1 + 1],
            input_diffusion_1_2: vec![fill.clone(); INPUT_DIFFUSION_1_2 + 1],
            input_diffusion_2_1: vec![fill.clone(); INPUT_DIFFUSION_2_1 + 1],
            input_diffusion_2_2: vec![fill.clone(); INPUT_DIFFUSION_2_2 + 1],
            decay_diffusion_1_1: vec![fill.clone(); DECAY_DIFFUSION_1_1 + EXCURSION + 1],
            decay_diffusion_1_2: vec![fill.clone(); DECAY_DIFFUSION_1_2 + EXCURSION + 1],
            decay_diffusion_2_1: vec![fill.clone(); DECAY_DIFFUSION_2_1 + 1],
            decay_diffusion_2_2: vec![fill.clone(); DECAY_DIFFUSION_2_2 + 1],
            dumping_1: vec![fill.clone(); 1],
            dumping_2: vec![fill.clone(); 1],
            delay_1: vec![fill.clone(); DELAY_1 + 1],
            delay_2: vec![fill.clone(); DELAY_2 + 1],
            delay_3: vec![fill.clone(); DELAY_3 + 1],
            delay_4: vec![fill.clone(); DELAY_4 + 1],
            tank: vec![fill; 2],
        }
    }

    fn buffers(&mut self) -> PlateBuffers<'_, T> {
        PlateBuffers {
            predelay: &mut self.predelay,
            prefilter: &mut self.prefilter,
            input_diffusion_1_1: &mut self.input_diffusion_1_1,
            input_diffusion_1_2: &mut self.input_diffusion_1_2,
            input_diffusion_2_1: &mut self.input_diffusion_2_1,
            input_diffusion_2_2: &mut self.input_diffusion_2_2,
            decay_diffusion_1_1: &mut self.decay_diffusion_1_1,
            decay_diffusion_1_2: &mut self.decay_diffusion_1_2,
            decay_diffusion_2_1: &mut self.decay_diffusion_2_1,
            decay_diffusion_2_2: &mut self.decay_diffusion_2_2,
            dumping_1: &mut self.dumping_1,
            dumping_2: &mut self.dumping_2,
            delay_1: &mut self.delay_1,
            delay_2: &mut self.delay_2,
            delay_3: &mut self.delay_3,
            delay_4: &mut self.delay_4,
            tank: &mut self.tank,
        }
    }
}

fn default_params() -> PlateParams<f64> {
    PlateParams {
        predelay: 1,
        bandwidth: 0.9995,
        input_diffusion_1: 0.750,
        input_diffusion_2: 0.625,
        decay_diffusion_1: 0.70,
        decay_diffusion_2: 0.50,
        damping: 0.0005,
        decay: 0.50,
        decay_modulation: 0,
    }
}

fn burst_at(t: usize) -> f64 {
    if t < 50 {
        (2.0 * 3.14 * t as f64 / 50.0).sin()
    } else {
        0.0
    }
}

#[test]
fn plate_burst() {
    let mut predelay = vec![0.0; 4096];
    let mut input_diffusion_1_1 = vec![0.0; INPUT_DIFFUSION_1_1 + 1];
    let mut input_diffusion_1_2 = vec![0.0; INPUT_DIFFUSION_1_2 + 1];
    let mut input_diffusion_2_1 = vec![0.0; INPUT_DIFFUSION_2_1 + 1];
    let mut input_diffusion_2_2 = vec![0.0; INPUT_DIFFUSION_2_2 + 1];
    let mut decay_diffusion_1_1 = vec![0.0; DECAY_DIFFUSION_1_1 + EXCURSION + 1];
    let mut decay_diffusion_1_2 = vec![0.0; DECAY_DIFFUSION_1_2 + EXCURSION + 1];
    let mut decay_diffusion_2_1 = vec![0.0; DECAY_DIFFUSION_2_1 + 1];
    let mut decay_diffusion_2_2 = vec![0.0; DECAY_DIFFUSION_2_2 + 1];
    let mut delay_1 = vec![0.0; DELAY_1 + 1];
    let mut delay_2 = vec![0.0; DELAY_2 + 1];
    let mut delay_3 = vec![0.0; DELAY_3 + 1];
    let mut delay_4 = vec![0.0; DELAY_4 + 1];
    let mut prefilter = vec![0.0];
    let mut dumping_1 = vec![0.0];
    let mut dumping_2 = vec![0.0];
    let mut tank = vec![0.0, 0.0];
    let buffers = PlateBuffers {
        predelay: predelay.as_mut(),
        input_diffusion_1_1: input_diffusion_1_1.as_mut(),
        input_diffusion_1_2: input_diffusion_1_2.as_mut(),
        input_diffusion_2_1: input_diffusion_2_1.as_mut(),
        input_diffusion_2_2: input_diffusion_2_2.as_mut(),
        decay_diffusion_1_1: decay_diffusion_1_1.as_mut(),
        decay_diffusion_1_2: decay_diffusion_1_2.as_mut(),
        decay_diffusion_2_1: decay_diffusion_2_1.as_mut(),
        decay_diffusion_2_2: decay_diffusion_2_2.as_mut(),
        delay_1: delay_1.as_mut(),
        delay_2: delay_2.as_mut(),
        delay_3: delay_3.as_mut(),
        delay_4: delay_4.as_mut(),
        prefilter: prefilter.as_mut(),
        dumping_1: dumping_1.as_mut(),
        dumping_2: dumping_2.as_mut(),
        tank: tank.as_mut(),
    };
    let mut plate: Plate<'_, f64> = buffers.build();

    for t in 0..500 {
        let burst = if t < 50 {
            (2.0 * 3.14 * t as f64 / 50.0).sin()
        } else {
            0.0
        };
        let y = plate.process_2ch(&[burst]);
        println!("{},{},{},{}", t, burst, y[0], y[1]);
        assert_eq!([0.0, 0.0], y);
    }
}

#[test]
fn lib_burst() {
    let mut predelay = vec![0.0; 4096];
    let mut input_diffusion_1_1 = vec![0.0; INPUT_DIFFUSION_1_1 + 1];
    let mut input_diffusion_1_2 = vec![0.0; INPUT_DIFFUSION_1_2 + 1];
    let mut input_diffusion_2_1 = vec![0.0; INPUT_DIFFUSION_2_1 + 1];
    let mut input_diffusion_2_2 = vec![0.0; INPUT_DIFFUSION_2_2 + 1];
    let mut decay_diffusion_1_1 = vec![0.0; DECAY_DIFFUSION_1_1 + EXCURSION + 1];
    let mut decay_diffusion_1_2 = vec![0.0; DECAY_DIFFUSION_1_2 + EXCURSION + 1];
    let mut decay_diffusion_2_1 = vec![0.0; DECAY_DIFFUSION_2_1 + 1];
    let mut decay_diffusion_2_2 = vec![0.0; DECAY_DIFFUSION_2_2 + 1];
    let mut delay_1 = vec![0.0; DELAY_1 + 1];
    let mut delay_2 = vec![0.0; DELAY_2 + 1];
    let mut delay_3 = vec![0.0; DELAY_3 + 1];
    let mut delay_4 = vec![0.0; DELAY_4 + 1];
    let mut prefilter = vec![0.0];
    let mut dumping_1 = vec![0.0];
    let mut dumping_2 = vec![0.0];
    let mut tank = vec![0.0, 0.0];
    let buffers: PlateBuffers<'_, f64> = PlateBuffers {
        predelay: predelay.as_mut(),
        input_diffusion_1_1: input_diffusion_1_1.as_mut(),
        input_diffusion_1_2: input_diffusion_1_2.as_mut(),
        input_diffusion_2_1: input_diffusion_2_1.as_mut(),
        input_diffusion_2_2: input_diffusion_2_2.as_mut(),
        decay_diffusion_1_1: decay_diffusion_1_1.as_mut(),
        decay_diffusion_1_2: decay_diffusion_1_2.as_mut(),
        decay_diffusion_2_1: decay_diffusion_2_1.as_mut(),
        decay_diffusion_2_2: decay_diffusion_2_2.as_mut(),
        delay_1: delay_1.as_mut(),
        delay_2: delay_2.as_mut(),
        delay_3: delay_3.as_mut(),
        delay_4: delay_4.as_mut(),
        prefilter: prefilter.as_mut(),
        dumping_1: dumping_1.as_mut(),
        dumping_2: dumping_2.as_mut(),
        tank: tank.as_mut(),
    };
    let mut plate: Plate<'_, f64> = buffers.build();
    plate.set_params(default_params());

    let mut heard = false;
    for t in 0..500 {
        let burst = if t < 50 {
            (2.0 * 3.14 * t as f64 / 50.0).sin()
        } else {
            0.0
        };
        let y = plate.process_2ch(&[burst]);
        println!("{},{},{},{}", t, burst, y[0], y[1]);
        assert!(y[0].is_finite() && y[1].is_finite());
        heard = heard || y[0] != 0.0 || y[1] != 0.0;
    }
    assert!(heard);
}

/// A delay line kept as a queue, newest sample in front.
struct Queue {
    past: VecDeque<f64>,
}

impl Queue {
    fn new(capacity: usize) -> Queue {
        Queue { past: vec![0.0; capacity].into() }
    }

    fn write(&mut self, v: f64) {
        self.past.pop_back();
        self.past.push_front(v);
    }

    fn read(&self, delay: usize) -> f64 {
        self.past[delay - 1]
    }
}

struct Allpass {
    feedforward: f64,
    feedback: f64,
    lag: usize,
    line: Queue,
}

impl Allpass {
    fn new(coefficient: f64, lag: usize) -> Allpass {
        Allpass { feedforward: coefficient, feedback: coefficient, lag, line: Queue::new(lag + 20) }
    }

    fn tick(&mut self, x: f64) -> f64 {
        let z = self.line.read(self.lag);
        let inner = x - self.feedback * z;
        self.line.write(inner);
        self.feedforward * inner + z
    }
}

struct OnePole {
    coefficient: f64,
    gain: f64,
    last: f64,
}

impl OnePole {
    fn tick(&mut self, x: f64) -> f64 {
        self.last = 0.0 + self.last * self.coefficient + x * self.gain;
        self.last
    }
}

struct Branch {
    first: Allpass,
    long_1: Queue,
    lag_1: usize,
    damping: OnePole,
    second: Allpass,
    long_2: Queue,
    lag_2: usize,
}

impl Branch {
    fn step(&mut self, decay: f64, x: f64) -> f64 {
        let v = self.first.tick(x);
        self.long_1.write(v);
        let v = self.damping.tick(self.long_1.read(self.lag_1));
        let v = self.second.tick(decay * v);
        self.long_2.write(v);
        decay * self.long_2.read(self.lag_2)
    }
}

/// The network written a second time, on queues, for comparison.
struct Model {
    predelay: Queue,
    predelay_length: usize,
    bandwidth: OnePole,
    input: [Allpass; 4],
    a: Branch,
    b: Branch,
    carry_into_a: f64,
    carry_into_b: f64,
    decay: f64,
}

impl Model {
    fn new(p: &PlateParams<f64>) -> Model {
        let m = p.decay_modulation;
        let pole = || OnePole { coefficient: p.damping, gain: 1.0 - p.damping, last: 0.0 };
        Model {
            predelay: Queue::new(4096),
            predelay_length: p.predelay,
            bandwidth: OnePole { coefficient: 1.0 - p.bandwidth, gain: p.bandwidth, last: 0.0 },
            input: [
                Allpass::new(p.input_diffusion_1, 142),
                Allpass::new(p.input_diffusion_1, 107),
                Allpass::new(p.input_diffusion_2, 379),
                Allpass::new(p.input_diffusion_2, 277),
            ],
            a: Branch {
                first: Allpass::new(-p.decay_diffusion_1, (672 + m) as usize),
                long_1: Queue::new(4453),
                lag_1: 4453,
                damping: pole(),
                second: Allpass::new(p.decay_diffusion_2, 1800),
                long_2: Queue::new(3720),
                lag_2: 3720,
            },
            b: Branch {
                first: Allpass::new(-p.decay_diffusion_1, (908 + m) as usize),
                long_1: Queue::new(4217),
                lag_1: 4217,
                damping: pole(),
                second: Allpass::new(p.decay_diffusion_2, 2656),
                long_2: Queue::new(3163),
                lag_2: 3163,
            },
            carry_into_a: 0.0,
            carry_into_b: 0.0,
            decay: p.decay,
        }
    }

    fn step(&mut self, frame: &[f64]) -> [f64; 2] {
        let mut sum = frame[0];
        let mut n = 1.0;
        for x in &frame[1..] {
            sum = sum + *x;
            n = n + 1.0;
        }
        self.predelay.write(sum / n);
        let mut acc = self.bandwidth.tick(self.predelay.read(self.predelay_length));
        for stage in self.input.iter_mut() {
            acc = stage.tick(acc);
        }
        let from_a = self.a.step(self.decay, acc + self.carry_into_a);
        let from_b = self.b.step(self.decay, acc + self.carry_into_b);
        self.carry_into_a = from_b;
        self.carry_into_b = from_a;
        let (a1, a2, b1, b2) = (&self.a.long_1, &self.a.long_2, &self.b.long_1, &self.b.long_2);
        let (da, db) = (&self.a.second.line, &self.b.second.line);
        let left = b1.read(266) + b1.read(2974) - db.read(1913) + b2.read(1996) - a1.read(1990)
            - da.read(187) - a2.read(1066);
        let right = a1.read(353) + a1.read(3627) - da.read(1228) + a2.read(2673) - b1.read(2111)
            - db.read(335) - b2.read(121);
        [left, right]
    }
}

#[test]
fn burst_with_default_parameters_matches_the_model_sample_for_sample() {
    let params = default_params();
    let mut rig = Rig::new(0.0f64);
    let mut plate = rig.buffers().build();
    plate.set_params(params);
    let mut model = Model::new(&params);
    let mut loudest = 0.0f64;
    for t in 0..500 {
        let frame = [burst_at(t)];
        let y = plate.process_2ch(&frame);
        assert_eq!(model.step(&frame), y, "at sample {}", t);
        loudest = loudest.max(y[0].abs()).max(y[1].abs());
    }
    assert!(loudest > 0.0);
}

#[test]
fn long_stereo_run_matches_the_model_through_the_feedback_loop() {
    let params = PlateParams {
        predelay: 37,
        decay_modulation: -9,
        decay: 0.85,
        damping: 0.3,
        ..default_params()
    };
    let mut rig = Rig::new(0.0f64);
    let mut plate = rig.buffers().build();
    plate.set_params(params);
    let mut model = Model::new(&params);
    for t in 0..30000 {
        let frame = [burst_at(t % 7000), 0.5 * burst_at((t + 13) % 9000)];
        assert_eq!(model.step(&frame), plate.process_2ch(&frame), "at sample {}", t);
    }
}

#[test]
fn process_then_taps_equals_process_2ch() {
    let params = default_params();
    let mut rig_1 = Rig::new(0.0f64);
    let mut rig_2 = Rig::new(0.0f64);
    let mut one = rig_1.buffers().build();
    let mut two = rig_2.buffers().build();
    one.set_params(params);
    two.set_params(params);
    for t in 0..400 {
        one.process(&[burst_at(t)]);
        two.process_2ch(&[burst_at(t)]);
    }
    assert_eq!(one.process_2ch(&[0.25]), two.process_2ch(&[0.25]));
}

/// Where a unit impulse fed at step 0 shows up when every diffuser and
/// filter is transparent, so that the network is a chain of pure delays.
fn impulse_response(predelay: usize, modulation: isize, steps: usize) -> (Vec<i64>, Vec<i64>) {
    let mut left = vec![0i64; steps];
    let mut right = vec![0i64; steps];
    let mut event = |channel: &mut Vec<i64>, at: usize, sign: i64| {
        if at < steps {
            channel[at] += sign;
        }
    };
    // (time at which an impulse enters branch A, same for branch B)
    let mut rounds = vec![(predelay - 1 + 142 + 107 + 379 + 277, predelay - 1 + 142 + 107 + 379 + 277)];
    while let Some((into_a, into_b)) = rounds.pop() {
        if into_a >= steps && into_b >= steps {
            continue;
        }
        let a1 = into_a + (672 + modulation) as usize;
        let a_mid = a1 + 4452;
        let a2 = a_mid + 1800;
        let b1 = into_b + (908 + modulation) as usize;
        let b_mid = b1 + 4216;
        let b2 = b_mid + 2656;
        if into_b < steps {
            event(&mut left, b1 + 265, 1);
            event(&mut left, b1 + 2973, 1);
            event(&mut left, b_mid + 1912, -1);
            event(&mut left, b2 + 1995, 1);
            event(&mut right, b1 + 2110, -1);
            event(&mut right, b_mid + 334, -1);
            event(&mut right, b2 + 120, -1);
        }
        if into_a < steps {
            event(&mut left, a1 + 1989, -1);
            event(&mut left, a_mid + 186, -1);
            event(&mut left, a2 + 1065, -1);
            event(&mut right, a1 + 352, 1);
            event(&mut right, a1 + 3626, 1);
            event(&mut right, a_mid + 1227, -1);
            event(&mut right, a2 + 2672, 1);
        }
        // each branch hands its output to the other one, one step later
        let next_a = if into_b < steps { b2 + 3162 + 1 } else { steps };
        let next_b = if into_a < steps { a2 + 3719 + 1 } else { steps };
        rounds.push((next_a, next_b));
    }
    (left, right)
}

fn check_impulse(predelay: usize, modulation: isize) {
    let steps = 26000;
    let mut rig = Rig::new(0i64);
    let mut plate = rig.buffers().build();
    plate.set_params(PlateParams {
        predelay,
        bandwidth: 1,
        input_diffusion_1: 0,
        input_diffusion_2: 0,
        decay_diffusion_1: 0,
        decay_diffusion_2: 0,
        decay_modulation: modulation,
        damping: 0,
        decay: 1,
    });
    let (left, right) = impulse_response(predelay, modulation, steps);
    assert_eq!(1, right[predelay - 1 + 905 + (672 + modulation) as usize + 352]);
    for t in 0..steps {
        let x = if t == 0 { 1 } else { 0 };
        assert_eq!([left[t], right[t]], plate.process_2ch(&[x]), "at step {}", t);
    }
}

#[test]
fn impulse_through_transparent_network_arrives_at_the_tap_times() {
    check_impulse(1, 0);
}

#[test]
fn modulation_moves_the_taps_of_both_branches() {
    check_impulse(1, 15);
    check_impulse(1, -15);
}

#[test]
fn predelay_shifts_everything() {
    check_impulse(50, 3);
    check_impulse(4095, 0);
}

#[test]
fn unconfigured_network_is_silent() {
    let mut rig = Rig::new(0i32);
    let mut plate = rig.buffers().build();
    for t in 0..3000 {
        assert_eq!([0, 0], plate.process_2ch(&[1000 + t]));
    }
}

#[test]
fn set_params_twice_is_set_params_once() {
    let params = default_params();
    let mut rig_1 = Rig::new(0.0f64);
    let mut rig_2 = Rig::new(0.0f64);
    let mut once = rig_1.buffers().build();
    let mut twice = rig_2.buffers().build();
    once.set_params(params);
    twice.set_params(params);
    twice.set_params(params);
    for t in 0..600 {
        let frame = [burst_at(t)];
        twice.set_params(params);
        assert_eq!(once.process_2ch(&frame), twice.process_2ch(&frame));
    }
}

#[test]
fn set_params_keeps_the_histories() {
    let mut rig = Rig::new(0i64);
    let mut plate = rig.buffers().build();
    let transparent = PlateParams {
        predelay: 1,
        bandwidth: 1,
        input_diffusion_1: 0,
        input_diffusion_2: 0,
        decay_diffusion_1: 0,
        decay_diffusion_2: 0,
        decay_modulation: 0,
        damping: 0,
        decay: 1,
    };
    plate.set_params(transparent);
    let (_, right) = impulse_response(1, 0, 4000);
    for t in 0..1000 {
        let x = if t == 0 { 1 } else { 0 };
        plate.process_2ch(&[x]);
    }
    // The impulse is on its way through the modulated diffuser of branch A:
    // a new bandwidth does not disturb it.
    plate.set_params(PlateParams { bandwidth: 5, ..transparent });
    for t in 1000..4000 {
        assert_eq!(right[t], plate.process_2ch(&[0])[1], "at step {}", t);
    }
}

#[test]
fn identical_runs_give_identical_outputs() {
    let mut traces: Vec<Vec<[f64; 2]>> = Vec::new();
    for _ in 0..2 {
        let mut rig = Rig::new(0.0f64);
        let mut plate = rig.buffers().build();
        let mut trace = Vec::new();
        for t in 0..12000 {
            if t % 64 == 0 {
                plate.set_params(PlateParams {
                    decay_modulation: ((t / 64) % 31) as isize - 15,
                    predelay: 1 + (t / 64) % 100,
                    ..default_params()
                });
            }
            trace.push(plate.process_2ch(&[burst_at(t % 500), burst_at((t + 7) % 300)]));
        }
        traces.push(trace);
    }
    let same = traces[0]
        .iter()
        .zip(traces[1].iter())
        .all(|(a, b)| a[0].to_bits() == b[0].to_bits() && a[1].to_bits() == b[1].to_bits());
    assert!(same);
    assert!(traces[0].iter().any(|y| y[0] != 0.0));
}

#[test]
fn bounded_input_gives_bounded_output() {
    for (decay, damping) in [(0.0, 0.5), (0.5, 0.0005), (0.9, 0.3), (0.999, 0.999)] {
        let mut rig = Rig::new(0.0f64);
        let mut plate = rig.buffers().build();
        plate.set_params(PlateParams { decay, damping, ..default_params() });
        let mut peak = 0.0f64;
        for t in 0..120_000usize {
            let x = if (t / 50) % 2 == 0 { 1.0 } else { -1.0 };
            let y = plate.process_2ch(&[x, x]);
            assert!(y[0].is_finite() && y[1].is_finite());
            peak = peak.max(y[0].abs()).max(y[1].abs());
        }
        assert!(peak < 1000.0, "peak {} at decay {}", peak, decay);
    }
}

#[test]
fn mean_of_a_frame() {
    assert_eq!(1.5, mean(&[1.0, 2.0]));
    assert_eq!(0.25, mean(&[0.25f32]));
    assert_eq!(6, mean(&[4, 8]));
    assert_eq!(-2, mean(&[-1i64, -2, -3]));
    assert_eq!((0.1 + 0.2 + 0.3) / 3.0, mean(&[0.1, 0.2, 0.3]));
}

#[test]
fn stereo_frame_is_summed_to_mono() {
    let params = default_params();
    let mut rig_1 = Rig::new(0.0f64);
    let mut rig_2 = Rig::new(0.0f64);
    let mut stereo = rig_1.buffers().build();
    let mut mono = rig_2.buffers().build();
    stereo.set_params(params);
    mono.set_params(params);
    for t in 0..500 {
        let (l, r) = (burst_at(t), 0.5);
        assert_eq!(mono.process_2ch(&[(l + r) / 2.0]), stereo.process_2ch(&[l, r]));
    }
}

#[test]
fn mix_blends_dry_and_wet() {
    assert_eq!(0.75 * 2.0 + 0.25 * 10.0, mix(0.25, 2.0, 10.0));
    assert_eq!(2.0, mix(0.0, 2.0, 10.0));
    assert_eq!(10.0, mix(1.0, 2.0, 10.0));
    assert_eq!(-3 * 2 + 4 * 10, mix(4, 2, 10));
}

#[test]
fn process_buffer_sets_feeds_and_mixes() {
    let params = PlateParams { predelay: 5, decay_modulation: 7, ..default_params() };
    let wet = 0.3;
    let dry_left: Vec<f64> = (0..700).map(burst_at).collect();
    let dry_right: Vec<f64> = (0..700).map(|t| 0.5 * burst_at(t + 11)).collect();
    let mut left = dry_left.clone();
    let mut right = dry_right.clone();
    let mut rig_1 = Rig::new(0.0f64);
    let mut rig_2 = Rig::new(0.0f64);
    let mut whole = rig_1.buffers().build();
    let mut single = rig_2.buffers().build();
    whole.process_buffer(params, wet, &mut left, &mut right);
    single.set_params(params);
    let mut changed = false;
    for i in 0..700 {
        let y = single.process_2ch(&[dry_left[i], dry_right[i]]);
        assert_eq!((1.0 - wet) * dry_left[i] + wet * y[0], left[i]);
        assert_eq!((1.0 - wet) * dry_right[i] + wet * y[1], right[i]);
        changed = changed || y[0] != 0.0;
    }
    assert!(changed);
    assert_eq!(single.process_2ch(&[1.0]), whole.process_2ch(&[1.0]));
}

#[test]
fn process_buffer_of_an_empty_block_only_sets_the_parameters() {
    let params = default_params();
    let mut rig_1 = Rig::new(0.0f64);
    let mut rig_2 = Rig::new(0.0f64);
    let mut whole = rig_1.buffers().build();
    let mut single = rig_2.buffers().build();
    whole.process_buffer(params, 0.5, &mut [], &mut []);
    single.set_params(params);
    for t in 0..400 {
        assert_eq!(single.process_2ch(&[burst_at(t)]), whole.process_2ch(&[burst_at(t)]));
    }
}

#[test]
fn a_dry_block_is_left_as_it_was() {
    let mut rig = Rig::new(0i64);
    let mut plate = rig.buffers().build();
    let mut left = [3i64, -4, 5];
    let mut right = [6i64, 7, -8];
    plate.process_buffer(
        PlateParams {
            predelay: 1,
            bandwidth: 1,
            input_diffusion_1: 0,
            input_diffusion_2: 0,
            decay_diffusion_1: 0,
            decay_diffusion_2: 0,
            decay_modulation: 0,
            damping: 0,
            decay: 1,
        },
        0,
        &mut left,
        &mut right,
    );
    assert_eq!([3, -4, 5], left);
    assert_eq!([6, 7, -8], right);
}

#[test]
fn buffers_are_adequate_from_the_documented_sizes_on() {
    let mut rig = Rig::new(0.0f32);
    assert!(rig.buffers().is_adequate());
    rig.decay_diffusion_1_1.truncate(DECAY_DIFFUSION_1_1 + EXCURSION);
    assert!(!rig.buffers().is_adequate());
    rig.decay_diffusion_1_1.push(0.0);
    rig.delay_4.truncate(DELAY_4);
    assert!(!rig.buffers().is_adequate());
    rig.delay_4.push(0.0);
    rig.tank.truncate(1);
    assert!(!rig.buffers().is_adequate());
    rig.tank.push(0.0);
    rig.predelay.clear();
    assert!(!rig.buffers().is_adequate());
    rig.predelay.push(0.0);
    assert!(rig.buffers().is_adequate());
}

#[test]
fn parameters_are_in_range_within_the_excursion() {
    let base = default_params();
    assert!(base.is_in_range());
    assert!(!PlateParams { predelay: 0, ..base }.is_in_range());
    assert!(PlateParams { decay_modulation: 15, ..base }.is_in_range());
    assert!(PlateParams { decay_modulation: -15, ..base }.is_in_range());
    assert!(!PlateParams { decay_modulation: 16, ..base }.is_in_range());
    assert!(!PlateParams { decay_modulation: -16, ..base }.is_in_range());
}
