use bulletml::errors::RunError;
use bulletml::expr::{BulletMLExpression, ExprNode};
use bulletml::num::SCALE;
use bulletml::tree::{BulletMLNode, BulletMLType, DirectionType, HVType, SpeedType};
use bulletml::{AppRunner, BulletML, Runner, State};

struct Data {
    log: Vec<String>,
    turn: u32,
}

struct App {
    aim: i64,
    bullet_dir: i64,
    bullet_speed: i64,
    default_speed: i64,
    rank: i64,
    rand: i64,
    states: Vec<State>,
    accel_x_log: Vec<i64>,
}

fn fresh_app() -> App {
    App {
        aim: 0,
        bullet_dir: 0,
        bullet_speed: 0,
        default_speed: 10 * SCALE,
        rank: SCALE,
        rand: 0,
        states: Vec::new(),
        accel_x_log: Vec::new(),
    }
}

fn fresh_data() -> Data {
    Data { log: Vec::new(), turn: 0 }
}

impl AppRunner<Data> for App {
    fn get_bullet_direction(&self, _data: &Data) -> i64 {
        self.bullet_dir
    }

    fn get_aim_direction(&self, _data: &Data) -> i64 {
        self.aim
    }

    fn get_bullet_speed(&self, _data: &Data) -> i64 {
        self.bullet_speed
    }

    fn get_default_speed(&self) -> i64 {
        self.default_speed
    }

    fn get_rank(&self, _data: &Data) -> i64 {
        self.rank
    }

    fn create_simple_bullet(&mut self, data: &mut Data, direction: i64, speed: i64) {
        data.log.push(format!("t{}:simple({},{})", data.turn, direction, speed));
    }

    fn create_bullet(&mut self, data: &mut Data, state: State, direction: i64, speed: i64) {
        data.log.push(format!("t{}:bullet({},{})", data.turn, direction, speed));
        self.states.push(state);
    }

    fn get_turn(&self, data: &Data) -> u32 {
        data.turn
    }

    fn do_vanish(&mut self, data: &mut Data) {
        data.log.push(format!("t{}:vanish", data.turn));
    }

    fn do_change_direction(&mut self, data: &mut Data, direction: i64) {
        data.log.push(format!("t{}:dir({})", data.turn, direction));
    }

    fn do_change_speed(&mut self, data: &mut Data, speed: i64) {
        data.log.push(format!("t{}:speed({})", data.turn, speed));
    }

    fn do_accel_x(&mut self, sx: i64) {
        self.accel_x_log.push(sx);
    }

    fn get_rand(&self, _data: &mut Data) -> i64 {
        self.rand
    }

    fn report_failure(&mut self, data: &mut Data, error: &RunError) {
        data.log.push(format!("t{}:fail({:?})", data.turn, error));
    }
}

fn run_frames(runner: &mut Runner<App>, doc: &BulletML, data: &mut Data, frames: u32) {
    for _ in 0..frames {
        runner.run(doc, data);
        data.turn += 1;
    }
}

/// `<action label="top"><fire><bullet/></fire></action>`
fn single_shot_doc() -> BulletML {
    let mut doc = BulletML::new(None);
    let top = doc
        .add_node(0, BulletMLNode::Action(Some(String::from("top"))))
        .unwrap();
    let fire = doc.add_node(top, BulletMLNode::Fire(None)).unwrap();
    doc.add_node(fire, BulletMLNode::Bullet(None)).unwrap();
    doc
}

#[test]
fn single_shot_spawns_once_then_ends() {
    let doc = single_shot_doc();
    let mut runner = Runner::new(fresh_app(), &doc);
    let mut data = fresh_data();
    runner.run(&doc, &mut data);
    assert_eq!(data.log, vec![String::from("t0:simple(0,10000)")]);
    assert!(!runner.is_end());
    data.turn = 1;
    runner.run(&doc, &mut data);
    assert!(runner.is_end());
    assert_eq!(data.log.len(), 1);
}

#[test]
fn wait_suspends_exactly_five_turns() {
    let mut doc = BulletML::new(None);
    let top = doc
        .add_node(0, BulletMLNode::Action(Some(String::from("top"))))
        .unwrap();
    let f1 = doc.add_node(top, BulletMLNode::Fire(None)).unwrap();
    doc.add_node(f1, BulletMLNode::Bullet(None)).unwrap();
    doc.add_node(top, BulletMLNode::Wait(BulletMLExpression::Const(5 * SCALE)))
        .unwrap();
    let f2 = doc.add_node(top, BulletMLNode::Fire(None)).unwrap();
    doc.add_node(f2, BulletMLNode::Bullet(None)).unwrap();

    let mut runner = Runner::new(fresh_app(), &doc);
    let mut data = fresh_data();
    run_frames(&mut runner, &doc, &mut data, 8);
    assert_eq!(
        data.log,
        vec![
            String::from("t0:simple(0,10000)"),
            String::from("t5:simple(0,10000)"),
        ]
    );
}

#[test]
fn change_speed_ramp_hits_target_exactly() {
    let mut doc = BulletML::new(Some(BulletMLType::Vertical));
    let top = doc
        .add_node(0, BulletMLNode::Action(Some(String::from("top"))))
        .unwrap();
    let cs = doc.add_node(top, BulletMLNode::ChangeSpeed).unwrap();
    doc.add_node(
        cs,
        BulletMLNode::Speed { spd_type: None, spd: BulletMLExpression::Const(SCALE) },
    )
    .unwrap();
    doc.add_node(cs, BulletMLNode::Term(BulletMLExpression::Const(10 * SCALE)))
        .unwrap();
    doc.add_node(top, BulletMLNode::Wait(BulletMLExpression::Const(20 * SCALE)))
        .unwrap();

    let mut runner = Runner::new(fresh_app(), &doc);
    let mut data = fresh_data();
    run_frames(&mut runner, &doc, &mut data, 14);
    let expected: Vec<String> = (1..=10)
        .map(|n: i64| format!("t{}:speed({})", n, n * 100))
        .collect();
    assert_eq!(data.log, expected);
}

#[test]
fn sibling_actions_run_strictly_in_order() {
    // One spawned bullet carrying two sibling actions: the second action's
    // first command must come after the first action's last command.
    let mut doc = BulletML::new(None);
    let top = doc
        .add_node(0, BulletMLNode::Action(Some(String::from("top"))))
        .unwrap();
    let fire = doc.add_node(top, BulletMLNode::Fire(None)).unwrap();
    let bullet = doc.add_node(fire, BulletMLNode::Bullet(None)).unwrap();
    let a1 = doc.add_node(bullet, BulletMLNode::Action(None)).unwrap();
    doc.add_node(a1, BulletMLNode::Wait(BulletMLExpression::Const(2 * SCALE)))
        .unwrap();
    let f1 = doc.add_node(a1, BulletMLNode::Fire(None)).unwrap();
    let b1 = doc.add_node(f1, BulletMLNode::Bullet(None)).unwrap();
    doc.add_node(
        b1,
        BulletMLNode::Speed { spd_type: None, spd: BulletMLExpression::Const(SCALE) },
    )
    .unwrap();
    let a2 = doc.add_node(bullet, BulletMLNode::Action(None)).unwrap();
    let f2 = doc.add_node(a2, BulletMLNode::Fire(None)).unwrap();
    let b2 = doc.add_node(f2, BulletMLNode::Bullet(None)).unwrap();
    doc.add_node(
        b2,
        BulletMLNode::Speed { spd_type: None, spd: BulletMLExpression::Const(2 * SCALE) },
    )
    .unwrap();

    let mut runner = Runner::new(fresh_app(), &doc);
    let mut data = fresh_data();
    runner.run(&doc, &mut data);
    assert_eq!(data.log, vec![String::from("t0:bullet(0,10000)")]);
    let state = runner.app_runner.states.pop().unwrap();

    let mut sub = Runner::new_from_state(fresh_app(), state);
    let mut sub_data = fresh_data();
    run_frames(&mut sub, &doc, &mut sub_data, 6);
    assert_eq!(
        sub_data.log,
        vec![
            String::from("t2:simple(0,1000)"),
            String::from("t3:simple(0,2000)"),
        ]
    );
}

#[test]
fn repeat_runs_body_exactly_n_times() {
    let mut doc = BulletML::new(None);
    let top = doc
        .add_node(0, BulletMLNode::Action(Some(String::from("top"))))
        .unwrap();
    let rep = doc.add_node(top, BulletMLNode::Repeat).unwrap();
    doc.add_node(rep, BulletMLNode::Times(BulletMLExpression::Const(4 * SCALE)))
        .unwrap();
    let body = doc.add_node(rep, BulletMLNode::Action(None)).unwrap();
    let fire = doc.add_node(body, BulletMLNode::Fire(None)).unwrap();
    doc.add_node(fire, BulletMLNode::Bullet(None)).unwrap();

    let mut runner = Runner::new(fresh_app(), &doc);
    let mut data = fresh_data();
    run_frames(&mut runner, &doc, &mut data, 3);
    assert_eq!(data.log.len(), 4);
    for entry in &data.log {
        assert_eq!(entry, "t0:simple(0,10000)");
    }
}

#[test]
fn repeat_with_zero_count_skips_the_body() {
    let mut doc = BulletML::new(None);
    let top = doc
        .add_node(0, BulletMLNode::Action(Some(String::from("top"))))
        .unwrap();
    let rep = doc.add_node(top, BulletMLNode::Repeat).unwrap();
    doc.add_node(rep, BulletMLNode::Times(BulletMLExpression::Const(0)))
        .unwrap();
    let body = doc.add_node(rep, BulletMLNode::Action(None)).unwrap();
    let fire = doc.add_node(body, BulletMLNode::Fire(None)).unwrap();
    doc.add_node(fire, BulletMLNode::Bullet(None)).unwrap();

    let mut runner = Runner::new(fresh_app(), &doc);
    let mut data = fresh_data();
    run_frames(&mut runner, &doc, &mut data, 3);
    assert_eq!(data.log.len(), 0);
    assert!(runner.is_end());
}

#[test]
fn repeat_count_may_come_from_a_rank_expression() {
    // 2 + 5 * rank, with rank 1.0, runs the body exactly 7 times.
    let mut doc = BulletML::new(None);
    let e_two = doc.add_expr(ExprNode::Lit(2 * SCALE)).unwrap();
    let e_five = doc.add_expr(ExprNode::Lit(5 * SCALE)).unwrap();
    let e_rank = doc.add_expr(ExprNode::Rank).unwrap();
    let e_mul = doc.add_expr(ExprNode::Times(e_five, e_rank)).unwrap();
    let e_sum = doc.add_expr(ExprNode::Plus(e_two, e_mul)).unwrap();
    let top = doc
        .add_node(0, BulletMLNode::Action(Some(String::from("top"))))
        .unwrap();
    let rep = doc.add_node(top, BulletMLNode::Repeat).unwrap();
    doc.add_node(rep, BulletMLNode::Times(BulletMLExpression::Expr(e_sum)))
        .unwrap();
    let body = doc.add_node(rep, BulletMLNode::Action(None)).unwrap();
    let fire = doc.add_node(body, BulletMLNode::Fire(None)).unwrap();
    doc.add_node(fire, BulletMLNode::Bullet(None)).unwrap();

    let mut runner = Runner::new(fresh_app(), &doc);
    let mut data = fresh_data();
    run_frames(&mut runner, &doc, &mut data, 3);
    assert_eq!(data.log.len(), 7);
}

/// A document whose top action expands `outer` with one parameter, and
/// whose `outer` expands `inner` with a derived parameter in between two
/// fires that read `$1`.
fn nested_reference_doc() -> BulletML {
    let mut doc = BulletML::new(None);
    let e_p1 = doc.add_expr(ExprNode::Param(1)).unwrap();
    let e_1000 = doc.add_expr(ExprNode::Lit(1000)).unwrap();
    let e_p1_plus = doc.add_expr(ExprNode::Plus(e_p1, e_1000)).unwrap();

    let top = doc
        .add_node(0, BulletMLNode::Action(Some(String::from("top"))))
        .unwrap();
    let call_outer = doc
        .add_node(top, BulletMLNode::ActionRef(String::from("outer")))
        .unwrap();
    doc.add_node(call_outer, BulletMLNode::Param(BulletMLExpression::Const(5000)))
        .unwrap();

    let outer = doc
        .add_node(0, BulletMLNode::Action(Some(String::from("outer"))))
        .unwrap();
    let f1 = doc.add_node(outer, BulletMLNode::Fire(None)).unwrap();
    let b1 = doc.add_node(f1, BulletMLNode::Bullet(None)).unwrap();
    doc.add_node(
        b1,
        BulletMLNode::Speed { spd_type: None, spd: BulletMLExpression::Expr(e_p1) },
    )
    .unwrap();
    let call_inner = doc
        .add_node(outer, BulletMLNode::ActionRef(String::from("inner")))
        .unwrap();
    doc.add_node(call_inner, BulletMLNode::Param(BulletMLExpression::Expr(e_p1_plus)))
        .unwrap();
    let f2 = doc.add_node(outer, BulletMLNode::Fire(None)).unwrap();
    let b2 = doc.add_node(f2, BulletMLNode::Bullet(None)).unwrap();
    doc.add_node(
        b2,
        BulletMLNode::Speed { spd_type: None, spd: BulletMLExpression::Expr(e_p1) },
    )
    .unwrap();

    let inner = doc
        .add_node(0, BulletMLNode::Action(Some(String::from("inner"))))
        .unwrap();
    let f3 = doc.add_node(inner, BulletMLNode::Fire(None)).unwrap();
    let b3 = doc.add_node(f3, BulletMLNode::Bullet(None)).unwrap();
    doc.add_node(
        b3,
        BulletMLNode::Speed { spd_type: None, spd: BulletMLExpression::Expr(e_p1) },
    )
    .unwrap();

    doc.set_action_label(String::from("outer"), outer);
    doc.set_action_label(String::from("inner"), inner);
    doc
}

#[test]
fn nested_reference_restores_parameters() {
    let doc = nested_reference_doc();
    let mut runner = Runner::new(fresh_app(), &doc);
    let mut data = fresh_data();
    run_frames(&mut runner, &doc, &mut data, 2);
    assert_eq!(
        data.log,
        vec![
            String::from("t0:simple(0,5000)"),
            String::from("t0:simple(0,6000)"),
            String::from("t0:simple(0,5000)"),
        ]
    );
}

#[test]
fn identical_runs_emit_identical_commands() {
    let doc = nested_reference_doc();
    let mut first_log: Vec<String> = Vec::new();
    let mut second_log: Vec<String> = Vec::new();
    for log in [&mut first_log, &mut second_log] {
        let mut runner = Runner::new(fresh_app(), &doc);
        let mut data = fresh_data();
        run_frames(&mut runner, &doc, &mut data, 4);
        *log = data.log;
    }
    assert_eq!(first_log, second_log);
    assert_eq!(first_log.len(), 3);
}

#[test]
fn resumed_snapshots_behave_identically() {
    // Two identical runs each capture a snapshot; the two spawned
    // instances then emit identical command sequences.
    let mut logs: Vec<Vec<String>> = Vec::new();
    for _ in 0..2 {
        let mut doc = BulletML::new(None);
        let top = doc
            .add_node(0, BulletMLNode::Action(Some(String::from("top"))))
            .unwrap();
        let fire = doc.add_node(top, BulletMLNode::Fire(None)).unwrap();
        let bullet = doc.add_node(fire, BulletMLNode::Bullet(None)).unwrap();
        let act = doc.add_node(bullet, BulletMLNode::Action(None)).unwrap();
        doc.add_node(act, BulletMLNode::Wait(BulletMLExpression::Const(SCALE)))
            .unwrap();
        let f = doc.add_node(act, BulletMLNode::Fire(None)).unwrap();
        doc.add_node(f, BulletMLNode::Bullet(None)).unwrap();

        let mut runner = Runner::new(fresh_app(), &doc);
        let mut data = fresh_data();
        runner.run(&doc, &mut data);
        let state = runner.app_runner.states.pop().unwrap();
        let mut sub = Runner::new_from_state(fresh_app(), state);
        let mut sub_data = fresh_data();
        run_frames(&mut sub, &doc, &mut sub_data, 4);
        logs.push(sub_data.log);
    }
    assert_eq!(logs[0], logs[1]);
    assert_eq!(logs[0], vec![String::from("t1:simple(0,10000)")]);
}

#[test]
fn dangling_reference_ends_the_instance() {
    let mut doc = BulletML::new(None);
    let top = doc
        .add_node(0, BulletMLNode::Action(Some(String::from("top"))))
        .unwrap();
    doc.add_node(top, BulletMLNode::ActionRef(String::from("nope")))
        .unwrap();
    let mut runner = Runner::new(fresh_app(), &doc);
    let mut data = fresh_data();
    runner.run(&doc, &mut data);
    assert_eq!(
        data.log,
        vec![String::from("t0:fail(DanglingReference(\"nope\"))")]
    );
    assert!(runner.is_end());
}

#[test]
fn parameter_out_of_range_ends_the_instance() {
    let mut doc = BulletML::new(None);
    let e = doc.add_expr(ExprNode::Param(2)).unwrap();
    let top = doc
        .add_node(0, BulletMLNode::Action(Some(String::from("top"))))
        .unwrap();
    doc.add_node(top, BulletMLNode::Wait(BulletMLExpression::Expr(e)))
        .unwrap();
    let mut runner = Runner::new(fresh_app(), &doc);
    let mut data = fresh_data();
    runner.run(&doc, &mut data);
    assert_eq!(
        data.log,
        vec![String::from("t0:fail(ParameterOutOfRange(2))")]
    );
    assert!(runner.is_end());
}

#[test]
fn repeat_without_times_is_malformed() {
    let mut doc = BulletML::new(None);
    let top = doc
        .add_node(0, BulletMLNode::Action(Some(String::from("top"))))
        .unwrap();
    let rep = doc.add_node(top, BulletMLNode::Repeat).unwrap();
    let body = doc.add_node(rep, BulletMLNode::Action(None)).unwrap();
    let fire = doc.add_node(body, BulletMLNode::Fire(None)).unwrap();
    doc.add_node(fire, BulletMLNode::Bullet(None)).unwrap();
    let mut runner = Runner::new(fresh_app(), &doc);
    let mut data = fresh_data();
    runner.run(&doc, &mut data);
    assert_eq!(data.log, vec![format!("t0:fail(MalformedSubtree({}))", rep)]);
    assert!(runner.is_end());
}

#[test]
fn spawn_directions_are_normalized() {
    let mut doc = BulletML::new(Some(BulletMLType::Vertical));
    let top = doc
        .add_node(0, BulletMLNode::Action(Some(String::from("top"))))
        .unwrap();
    for (dt, v) in [
        (DirectionType::Absolute, 450 * SCALE),
        (DirectionType::Aim, -30 * SCALE),
        (DirectionType::Relative, 300 * SCALE),
    ] {
        let fire = doc.add_node(top, BulletMLNode::Fire(None)).unwrap();
        doc.add_node(
            fire,
            BulletMLNode::Direction { dir_type: Some(dt), dir: BulletMLExpression::Const(v) },
        )
        .unwrap();
        doc.add_node(fire, BulletMLNode::Bullet(None)).unwrap();
    }
    let mut app = fresh_app();
    app.bullet_dir = 100 * SCALE;
    let mut runner = Runner::new(app, &doc);
    let mut data = fresh_data();
    runner.run(&doc, &mut data);
    assert_eq!(
        data.log,
        vec![
            format!("t0:simple({},10000)", 90 * SCALE),
            format!("t0:simple({},10000)", 330 * SCALE),
            format!("t0:simple({},10000)", 40 * SCALE),
        ]
    );
}

#[test]
fn sequence_direction_builds_on_the_previous_resolution() {
    let mut doc = BulletML::new(Some(BulletMLType::Vertical));
    let top = doc
        .add_node(0, BulletMLNode::Action(Some(String::from("top"))))
        .unwrap();
    let f1 = doc.add_node(top, BulletMLNode::Fire(None)).unwrap();
    doc.add_node(
        f1,
        BulletMLNode::Direction {
            dir_type: Some(DirectionType::Absolute),
            dir: BulletMLExpression::Const(100 * SCALE),
        },
    )
    .unwrap();
    doc.add_node(f1, BulletMLNode::Bullet(None)).unwrap();
    let f2 = doc.add_node(top, BulletMLNode::Fire(None)).unwrap();
    doc.add_node(
        f2,
        BulletMLNode::Direction {
            dir_type: Some(DirectionType::Sequence),
            dir: BulletMLExpression::Const(10 * SCALE),
        },
    )
    .unwrap();
    doc.add_node(f2, BulletMLNode::Bullet(None)).unwrap();

    let mut runner = Runner::new(fresh_app(), &doc);
    let mut data = fresh_data();
    runner.run(&doc, &mut data);
    assert_eq!(
        data.log,
        vec![
            format!("t0:simple({},10000)", 100 * SCALE),
            format!("t0:simple({},10000)", 110 * SCALE),
        ]
    );
}

#[test]
fn sequence_speed_builds_on_the_previous_resolution() {
    let mut doc = BulletML::new(Some(BulletMLType::Vertical));
    let top = doc
        .add_node(0, BulletMLNode::Action(Some(String::from("top"))))
        .unwrap();
    for v in [600, 100, 100] {
        let fire = doc.add_node(top, BulletMLNode::Fire(None)).unwrap();
        let st = if v == 600 { None } else { Some(SpeedType::Sequence) };
        doc.add_node(
            fire,
            BulletMLNode::Speed { spd_type: st, spd: BulletMLExpression::Const(v) },
        )
        .unwrap();
        doc.add_node(fire, BulletMLNode::Bullet(None)).unwrap();
    }
    let mut runner = Runner::new(fresh_app(), &doc);
    let mut data = fresh_data();
    runner.run(&doc, &mut data);
    assert_eq!(
        data.log,
        vec![
            String::from("t0:simple(0,600)"),
            String::from("t0:simple(0,700)"),
            String::from("t0:simple(0,800)"),
        ]
    );
}

#[test]
fn change_direction_takes_the_shorter_angular_path() {
    let mut doc = BulletML::new(Some(BulletMLType::Vertical));
    let top = doc
        .add_node(0, BulletMLNode::Action(Some(String::from("top"))))
        .unwrap();
    for v in [90 * SCALE, -90 * SCALE] {
        let cd = doc.add_node(top, BulletMLNode::ChangeDirection).unwrap();
        doc.add_node(
            cd,
            BulletMLNode::Direction {
                dir_type: Some(DirectionType::Relative),
                dir: BulletMLExpression::Const(v),
            },
        )
        .unwrap();
        doc.add_node(cd, BulletMLNode::Term(BulletMLExpression::Const(SCALE)))
            .unwrap();
        doc.add_node(top, BulletMLNode::Wait(BulletMLExpression::Const(SCALE)))
            .unwrap();
    }
    let mut runner = Runner::new(fresh_app(), &doc);
    let mut data = fresh_data();
    run_frames(&mut runner, &doc, &mut data, 4);
    // The second change targets 270 degrees and moves through the
    // complement of the raw difference (the shorter path); the reported
    // value is normalized, so -90 degrees arrives as 270.
    assert_eq!(
        data.log,
        vec![
            format!("t1:dir({})", 90 * SCALE),
            format!("t2:dir({})", 270 * SCALE),
        ]
    );
}

#[test]
fn accelerate_ramps_the_horizontal_axis() {
    let mut doc = BulletML::new(Some(BulletMLType::Vertical));
    let top = doc
        .add_node(0, BulletMLNode::Action(Some(String::from("top"))))
        .unwrap();
    let ac = doc.add_node(top, BulletMLNode::Accel).unwrap();
    doc.add_node(
        ac,
        BulletMLNode::Horizontal {
            h_type: HVType::Absolute,
            h: BulletMLExpression::Const(2 * SCALE),
        },
    )
    .unwrap();
    doc.add_node(ac, BulletMLNode::Term(BulletMLExpression::Const(2 * SCALE)))
        .unwrap();
    doc.add_node(top, BulletMLNode::Wait(BulletMLExpression::Const(5 * SCALE)))
        .unwrap();
    let mut runner = Runner::new(fresh_app(), &doc);
    let mut data = fresh_data();
    run_frames(&mut runner, &doc, &mut data, 6);
    assert_eq!(runner.app_runner.accel_x_log, vec![1000, 2000]);
}

#[test]
fn group_ends_when_its_first_instance_ends() {
    let mut doc = BulletML::new(None);
    let top1 = doc
        .add_node(0, BulletMLNode::Action(Some(String::from("top1"))))
        .unwrap();
    let fire = doc.add_node(top1, BulletMLNode::Fire(None)).unwrap();
    doc.add_node(fire, BulletMLNode::Bullet(None)).unwrap();
    let top2 = doc
        .add_node(0, BulletMLNode::Action(Some(String::from("top2"))))
        .unwrap();
    doc.add_node(top2, BulletMLNode::Wait(BulletMLExpression::Const(100 * SCALE)))
        .unwrap();

    let mut runner = Runner::new(fresh_app(), &doc);
    let mut data = fresh_data();
    run_frames(&mut runner, &doc, &mut data, 3);
    // the first instance is done while the second is still waiting, and
    // the group already counts as ended
    assert!(runner.is_end());
    assert_eq!(data.log, vec![String::from("t0:simple(0,10000)")]);
}

#[test]
fn vanish_reports_to_the_host() {
    let mut doc = BulletML::new(None);
    let top = doc
        .add_node(0, BulletMLNode::Action(Some(String::from("top"))))
        .unwrap();
    doc.add_node(top, BulletMLNode::Vanish).unwrap();
    let mut runner = Runner::new(fresh_app(), &doc);
    let mut data = fresh_data();
    runner.run(&doc, &mut data);
    assert_eq!(data.log, vec![String::from("t0:vanish")]);
}

#[test]
fn repeat_with_waits_spawns_on_schedule() {
    let mut doc = BulletML::new(None);
    let top = doc
        .add_node(0, BulletMLNode::Action(Some(String::from("top"))))
        .unwrap();
    let rep = doc.add_node(top, BulletMLNode::Repeat).unwrap();
    doc.add_node(rep, BulletMLNode::Times(BulletMLExpression::Const(5 * SCALE)))
        .unwrap();
    let body = doc.add_node(rep, BulletMLNode::Action(None)).unwrap();
    let fire = doc.add_node(body, BulletMLNode::Fire(None)).unwrap();
    doc.add_node(fire, BulletMLNode::Bullet(None)).unwrap();
    doc.add_node(body, BulletMLNode::Wait(BulletMLExpression::Const(100 * SCALE)))
        .unwrap();

    let mut runner = Runner::new(fresh_app(), &doc);
    let mut data = fresh_data();
    run_frames(&mut runner, &doc, &mut data, 520);
    let expected: Vec<String> = (0..5)
        .map(|n: u32| format!("t{}:simple(0,10000)", n * 100))
        .collect();
    assert_eq!(data.log, expected);
    assert!(runner.is_end());
}

#[test]
fn fire_descends_into_a_bullet_reference() {
    let mut doc = BulletML::new(Some(BulletMLType::Vertical));
    let top = doc
        .add_node(0, BulletMLNode::Action(Some(String::from("top"))))
        .unwrap();
    let fire = doc.add_node(top, BulletMLNode::Fire(None)).unwrap();
    doc.add_node(
        fire,
        BulletMLNode::Direction {
            dir_type: Some(DirectionType::Aim),
            dir: BulletMLExpression::Const(30 * SCALE),
        },
    )
    .unwrap();
    let call = doc
        .add_node(fire, BulletMLNode::BulletRef(String::from("pb")))
        .unwrap();
    doc.add_node(call, BulletMLNode::Param(BulletMLExpression::Const(SCALE)))
        .unwrap();

    let pb = doc
        .add_node(0, BulletMLNode::Bullet(Some(String::from("pb"))))
        .unwrap();
    doc.add_node(
        pb,
        BulletMLNode::Speed { spd_type: None, spd: BulletMLExpression::Const(2 * SCALE) },
    )
    .unwrap();
    let act = doc.add_node(pb, BulletMLNode::Action(None)).unwrap();
    let e_p1 = doc.add_expr(ExprNode::Param(1)).unwrap();
    doc.add_node(act, BulletMLNode::Wait(BulletMLExpression::Expr(e_p1)))
        .unwrap();
    doc.set_bullet_label(String::from("pb"), pb);

    let mut runner = Runner::new(fresh_app(), &doc);
    let mut data = fresh_data();
    runner.run(&doc, &mut data);
    // the fire's own aim direction and the referenced bullet's own speed
    assert_eq!(
        data.log,
        vec![format!("t{}:bullet({},{})", 0, 30 * SCALE, 2 * SCALE)]
    );
    // the spawned snapshot carries the evaluated parameter list
    let state = runner.app_runner.states.pop().unwrap();
    let mut sub = Runner::new_from_state(fresh_app(), state);
    let mut sub_data = fresh_data();
    run_frames(&mut sub, &doc, &mut sub_data, 4);
    assert!(sub_data.log.is_empty());
    assert!(sub.is_end());
}

#[test]
fn fire_reference_expands_with_parameters() {
    let mut doc = BulletML::new(None);
    let e_p1 = doc.add_expr(ExprNode::Param(1)).unwrap();
    let top = doc
        .add_node(0, BulletMLNode::Action(Some(String::from("top"))))
        .unwrap();
    let call = doc
        .add_node(top, BulletMLNode::FireRef(String::from("f1")))
        .unwrap();
    doc.add_node(call, BulletMLNode::Param(BulletMLExpression::Const(3000)))
        .unwrap();
    let f1 = doc
        .add_node(0, BulletMLNode::Fire(Some(String::from("f1"))))
        .unwrap();
    doc.add_node(
        f1,
        BulletMLNode::Speed { spd_type: None, spd: BulletMLExpression::Expr(e_p1) },
    )
    .unwrap();
    doc.add_node(f1, BulletMLNode::Bullet(None)).unwrap();
    doc.set_fire_label(String::from("f1"), f1);

    let mut runner = Runner::new(fresh_app(), &doc);
    let mut data = fresh_data();
    runner.run(&doc, &mut data);
    assert_eq!(data.log, vec![String::from("t0:simple(0,3000)")]);
}

#[test]
fn horizontal_documents_shift_absolute_directions() {
    let mut doc = BulletML::new(Some(BulletMLType::Horizontal));
    let top = doc
        .add_node(0, BulletMLNode::Action(Some(String::from("top"))))
        .unwrap();
    let fire = doc.add_node(top, BulletMLNode::Fire(None)).unwrap();
    doc.add_node(
        fire,
        BulletMLNode::Direction {
            dir_type: Some(DirectionType::Absolute),
            dir: BulletMLExpression::Const(0),
        },
    )
    .unwrap();
    doc.add_node(fire, BulletMLNode::Bullet(None)).unwrap();
    let mut runner = Runner::new(fresh_app(), &doc);
    let mut data = fresh_data();
    runner.run(&doc, &mut data);
    assert_eq!(data.log, vec![format!("t0:simple({},10000)", 270 * SCALE)]);
}

#[test]
fn mid_run_snapshot_resumes_identically() {
    // The whole resume point is plain data: copying an instance between
    // frames and stepping both copies under the same host yields the
    // same command sequence.
    let mut doc = BulletML::new(Some(BulletMLType::Vertical));
    let top = doc
        .add_node(0, BulletMLNode::Action(Some(String::from("top"))))
        .unwrap();
    let cs = doc.add_node(top, BulletMLNode::ChangeSpeed).unwrap();
    doc.add_node(
        cs,
        BulletMLNode::Speed { spd_type: None, spd: BulletMLExpression::Const(SCALE) },
    )
    .unwrap();
    doc.add_node(cs, BulletMLNode::Term(BulletMLExpression::Const(6 * SCALE)))
        .unwrap();
    doc.add_node(top, BulletMLNode::Wait(BulletMLExpression::Const(4 * SCALE)))
        .unwrap();
    let rep = doc.add_node(top, BulletMLNode::Repeat).unwrap();
    doc.add_node(rep, BulletMLNode::Times(BulletMLExpression::Const(3 * SCALE)))
        .unwrap();
    let body = doc.add_node(rep, BulletMLNode::Action(None)).unwrap();
    let fire = doc.add_node(body, BulletMLNode::Fire(None)).unwrap();
    doc.add_node(fire, BulletMLNode::Bullet(None)).unwrap();
    doc.add_node(body, BulletMLNode::Wait(BulletMLExpression::Const(2 * SCALE)))
        .unwrap();

    let mut runner = Runner::new(fresh_app(), &doc);
    let mut data = fresh_data();
    run_frames(&mut runner, &doc, &mut data, 3);

    let snapshot = runner.runners[0].clone();
    let mut twin = Runner { runners: vec![snapshot], app_runner: fresh_app() };
    let mut twin_data = Data { log: Vec::new(), turn: 3 };

    let split = data.log.len();
    run_frames(&mut runner, &doc, &mut data, 12);
    run_frames(&mut twin, &doc, &mut twin_data, 12);
    assert_eq!(&data.log[split..], &twin_data.log[..]);
    assert!(!twin_data.log.is_empty());
}

#[test]
fn an_empty_action_just_finishes() {
    let mut doc = BulletML::new(None);
    doc.add_node(0, BulletMLNode::Action(Some(String::from("top"))))
        .unwrap();
    let mut runner = Runner::new(fresh_app(), &doc);
    let mut data = fresh_data();
    run_frames(&mut runner, &doc, &mut data, 3);
    assert!(data.log.is_empty());
    assert!(runner.is_end());
}

#[test]
fn a_document_without_top_actions_yields_no_instances() {
    let mut doc = BulletML::new(None);
    let a = doc
        .add_node(0, BulletMLNode::Action(Some(String::from("side"))))
        .unwrap();
    doc.add_node(a, BulletMLNode::Vanish).unwrap();
    let mut runner = Runner::new(fresh_app(), &doc);
    let mut data = fresh_data();
    run_frames(&mut runner, &doc, &mut data, 2);
    assert!(data.log.is_empty());
    assert!(!runner.is_end());
}

#[test]
fn init_repoints_a_group_at_a_document() {
    let doc1 = single_shot_doc();
    let mut runner = Runner::new(fresh_app(), &doc1);
    let mut data = fresh_data();
    run_frames(&mut runner, &doc1, &mut data, 2);
    assert!(runner.is_end());

    let mut doc2 = BulletML::new(None);
    let top = doc2
        .add_node(0, BulletMLNode::Action(Some(String::from("top"))))
        .unwrap();
    let fire = doc2.add_node(top, BulletMLNode::Fire(None)).unwrap();
    let b = doc2.add_node(fire, BulletMLNode::Bullet(None)).unwrap();
    doc2.add_node(
        b,
        BulletMLNode::Speed { spd_type: None, spd: BulletMLExpression::Const(7 * SCALE) },
    )
    .unwrap();
    runner.init(&doc2);
    assert!(!runner.is_end());
    let mut data2 = fresh_data();
    runner.run(&doc2, &mut data2);
    assert_eq!(data2.log, vec![format!("t0:simple(0,{})", 7 * SCALE)]);
}

#[test]
fn init_from_state_reuses_a_runner_for_a_snapshot() {
    let mut doc = BulletML::new(None);
    let top = doc
        .add_node(0, BulletMLNode::Action(Some(String::from("top"))))
        .unwrap();
    let fire = doc.add_node(top, BulletMLNode::Fire(None)).unwrap();
    let bullet = doc.add_node(fire, BulletMLNode::Bullet(None)).unwrap();
    let act = doc.add_node(bullet, BulletMLNode::Action(None)).unwrap();
    let f = doc.add_node(act, BulletMLNode::Fire(None)).unwrap();
    doc.add_node(f, BulletMLNode::Bullet(None)).unwrap();

    let mut runner = Runner::new(fresh_app(), &doc);
    let mut data = fresh_data();
    runner.run(&doc, &mut data);
    let state = runner.app_runner.states.pop().unwrap();

    let mut other = Runner::new(fresh_app(), &doc);
    other.init_from_state(state);
    let mut sub_data = fresh_data();
    run_frames(&mut other, &doc, &mut sub_data, 2);
    assert_eq!(sub_data.log, vec![String::from("t0:simple(0,10000)")]);
}

#[test]
fn relative_speed_adds_the_current_speed() {
    let mut doc = BulletML::new(None);
    let top = doc
        .add_node(0, BulletMLNode::Action(Some(String::from("top"))))
        .unwrap();
    let fire = doc.add_node(top, BulletMLNode::Fire(None)).unwrap();
    doc.add_node(
        fire,
        BulletMLNode::Speed {
            spd_type: Some(SpeedType::Relative),
            spd: BulletMLExpression::Const(500),
        },
    )
    .unwrap();
    doc.add_node(fire, BulletMLNode::Bullet(None)).unwrap();
    let mut app = fresh_app();
    app.bullet_speed = 2000;
    let mut runner = Runner::new(app, &doc);
    let mut data = fresh_data();
    runner.run(&doc, &mut data);
    assert_eq!(data.log, vec![String::from("t0:simple(0,2500)")]);
}

#[test]
fn a_group_advances_every_instance_each_frame() {
    let mut doc = BulletML::new(None);
    let top1 = doc
        .add_node(0, BulletMLNode::Action(Some(String::from("topA"))))
        .unwrap();
    let f1 = doc.add_node(top1, BulletMLNode::Fire(None)).unwrap();
    doc.add_node(f1, BulletMLNode::Bullet(None)).unwrap();
    let top2 = doc
        .add_node(0, BulletMLNode::Action(Some(String::from("topB"))))
        .unwrap();
    doc.add_node(top2, BulletMLNode::Wait(BulletMLExpression::Const(SCALE)))
        .unwrap();
    let f2 = doc.add_node(top2, BulletMLNode::Fire(None)).unwrap();
    let b2 = doc.add_node(f2, BulletMLNode::Bullet(None)).unwrap();
    doc.add_node(
        b2,
        BulletMLNode::Speed { spd_type: None, spd: BulletMLExpression::Const(3 * SCALE) },
    )
    .unwrap();

    let mut runner = Runner::new(fresh_app(), &doc);
    let mut data = fresh_data();
    run_frames(&mut runner, &doc, &mut data, 3);
    assert_eq!(
        data.log,
        vec![
            String::from("t0:simple(0,10000)"),
            String::from("t1:simple(0,3000)"),
        ]
    );
}

#[test]
fn aimed_repeat_pattern_fires_on_cadence() {
    // A thousand aimed unit-speed shots, one every hundred turns.
    let mut doc = BulletML::new(Some(BulletMLType::Vertical));
    let top = doc
        .add_node(0, BulletMLNode::Action(Some(String::from("top"))))
        .unwrap();
    let rep = doc.add_node(top, BulletMLNode::Repeat).unwrap();
    doc.add_node(rep, BulletMLNode::Times(BulletMLExpression::Const(1000 * SCALE)))
        .unwrap();
    let body = doc.add_node(rep, BulletMLNode::Action(None)).unwrap();
    let fire = doc.add_node(body, BulletMLNode::Fire(None)).unwrap();
    let bullet = doc.add_node(fire, BulletMLNode::Bullet(None)).unwrap();
    doc.add_node(
        bullet,
        BulletMLNode::Direction {
            dir_type: Some(DirectionType::Aim),
            dir: BulletMLExpression::Const(0),
        },
    )
    .unwrap();
    doc.add_node(
        bullet,
        BulletMLNode::Speed { spd_type: None, spd: BulletMLExpression::Const(SCALE) },
    )
    .unwrap();
    doc.add_node(body, BulletMLNode::Wait(BulletMLExpression::Const(100 * SCALE)))
        .unwrap();

    let mut runner = Runner::new(fresh_app(), &doc);
    let mut data = fresh_data();
    run_frames(&mut runner, &doc, &mut data, 100_002);
    let expected: Vec<String> = (0..1000u32)
        .map(|k| format!("t{}:simple(0,1000)", k * 100))
        .collect();
    assert_eq!(data.log, expected);
    assert!(runner.is_end());
}

#[test]
fn accelerating_shot_pattern() {
    // Two relative-speed shots of a referenced bullet whose own script
    // waits and then ramps its speed, the second shot sequence-typed.
    let mut doc = BulletML::new(Some(BulletMLType::Vertical));
    let e_rank = doc.add_expr(ExprNode::Rank).unwrap();
    let e_17 = doc.add_expr(ExprNode::Lit(1700)).unwrap();
    let e_times = doc.add_expr(ExprNode::Times(e_rank, e_17)).unwrap();

    let top = doc
        .add_node(0, BulletMLNode::Action(Some(String::from("top"))))
        .unwrap();
    let f1 = doc.add_node(top, BulletMLNode::Fire(None)).unwrap();
    doc.add_node(
        f1,
        BulletMLNode::Direction {
            dir_type: Some(DirectionType::Relative),
            dir: BulletMLExpression::Const(0),
        },
    )
    .unwrap();
    doc.add_node(
        f1,
        BulletMLNode::Speed {
            spd_type: Some(SpeedType::Relative),
            spd: BulletMLExpression::Const(-900),
        },
    )
    .unwrap();
    doc.add_node(f1, BulletMLNode::BulletRef(String::from("accel")))
        .unwrap();
    let rep = doc.add_node(top, BulletMLNode::Repeat).unwrap();
    doc.add_node(rep, BulletMLNode::Times(BulletMLExpression::Expr(e_times)))
        .unwrap();
    let body = doc.add_node(rep, BulletMLNode::Action(None)).unwrap();
    doc.add_node(body, BulletMLNode::Wait(BulletMLExpression::Const(2 * SCALE)))
        .unwrap();
    let f2 = doc.add_node(body, BulletMLNode::Fire(None)).unwrap();
    doc.add_node(
        f2,
        BulletMLNode::Direction {
            dir_type: Some(DirectionType::Relative),
            dir: BulletMLExpression::Const(0),
        },
    )
    .unwrap();
    doc.add_node(
        f2,
        BulletMLNode::Speed {
            spd_type: Some(SpeedType::Sequence),
            spd: BulletMLExpression::Const(300),
        },
    )
    .unwrap();
    doc.add_node(f2, BulletMLNode::BulletRef(String::from("accel")))
        .unwrap();
    doc.add_node(top, BulletMLNode::Vanish).unwrap();

    let accel = doc
        .add_node(0, BulletMLNode::Bullet(Some(String::from("accel"))))
        .unwrap();
    let aact = doc.add_node(accel, BulletMLNode::Action(None)).unwrap();
    doc.add_node(aact, BulletMLNode::Wait(BulletMLExpression::Const(3 * SCALE)))
        .unwrap();
    let cs = doc.add_node(aact, BulletMLNode::ChangeSpeed).unwrap();
    doc.add_node(
        cs,
        BulletMLNode::Speed { spd_type: None, spd: BulletMLExpression::Const(SCALE) },
    )
    .unwrap();
    doc.add_node(cs, BulletMLNode::Term(BulletMLExpression::Const(60 * SCALE)))
        .unwrap();
    doc.set_bullet_label(String::from("accel"), accel);

    let mut app = fresh_app();
    app.bullet_speed = SCALE;
    let mut runner = Runner::new(app, &doc);
    let mut data = fresh_data();
    run_frames(&mut runner, &doc, &mut data, 5);
    // 1.0 - 0.9 == 0.1 exactly; the sequence shot adds 0.3 onto it
    assert_eq!(
        data.log,
        vec![
            String::from("t0:bullet(0,100)"),
            String::from("t2:bullet(0,400)"),
            String::from("t2:vanish"),
        ]
    );

    // the first spawned bullet waits three turns, then ramps its speed
    // toward 1.0 over sixty turns, reporting exactly 1.0 each turn
    let state = runner.app_runner.states.remove(0);
    let mut sub = Runner::new_from_state(
        {
            let mut a = fresh_app();
            a.bullet_speed = SCALE;
            a
        },
        state,
    );
    let mut sub_data = Data { log: Vec::new(), turn: 1 };
    run_frames(&mut sub, &doc, &mut sub_data, 70);
    let expected: Vec<String> = (5..=64).map(|n: u32| format!("t{}:speed(1000)", n)).collect();
    assert_eq!(sub_data.log, expected);
}

#[test]
fn twin_morph_pattern() {
    // Two spawned bullets swing apart and back through mirrored
    // one-turn direction changes, then drop a stationary bullet.
    let mut doc = BulletML::new(Some(BulletMLType::Vertical));
    let e_zero = doc.add_expr(ExprNode::Lit(0)).unwrap();
    let e_p1 = doc.add_expr(ExprNode::Param(1)).unwrap();
    let e_negp1 = doc.add_expr(ExprNode::Minus(e_zero, e_p1)).unwrap();
    let e_rank = doc.add_expr(ExprNode::Rank).unwrap();
    let e_negrank = doc.add_expr(ExprNode::Neg(e_rank)).unwrap();

    let top = doc
        .add_node(0, BulletMLNode::Action(Some(String::from("top"))))
        .unwrap();
    doc.add_node(top, BulletMLNode::Wait(BulletMLExpression::Const(SCALE)))
        .unwrap();
    for param in [90 * SCALE, -90 * SCALE] {
        let fire = doc.add_node(top, BulletMLNode::Fire(None)).unwrap();
        let bullet = doc.add_node(fire, BulletMLNode::Bullet(None)).unwrap();
        doc.add_node(
            bullet,
            BulletMLNode::Direction {
                dir_type: Some(DirectionType::Relative),
                dir: BulletMLExpression::Const(0),
            },
        )
        .unwrap();
        doc.add_node(
            bullet,
            BulletMLNode::Speed {
                spd_type: Some(SpeedType::Relative),
                spd: BulletMLExpression::Expr(e_rank),
            },
        )
        .unwrap();
        let call = doc
            .add_node(bullet, BulletMLNode::ActionRef(String::from("ofs")))
            .unwrap();
        doc.add_node(call, BulletMLNode::Param(BulletMLExpression::Const(param)))
            .unwrap();
    }
    doc.add_node(top, BulletMLNode::Vanish).unwrap();

    let ofs = doc
        .add_node(0, BulletMLNode::Action(Some(String::from("ofs"))))
        .unwrap();
    for e in [e_p1, e_negp1] {
        let cd = doc.add_node(ofs, BulletMLNode::ChangeDirection).unwrap();
        doc.add_node(
            cd,
            BulletMLNode::Direction {
                dir_type: Some(DirectionType::Relative),
                dir: BulletMLExpression::Expr(e),
            },
        )
        .unwrap();
        doc.add_node(cd, BulletMLNode::Term(BulletMLExpression::Const(SCALE)))
            .unwrap();
        doc.add_node(ofs, BulletMLNode::Wait(BulletMLExpression::Const(SCALE)))
            .unwrap();
    }
    let fire = doc.add_node(ofs, BulletMLNode::Fire(None)).unwrap();
    doc.add_node(
        fire,
        BulletMLNode::Direction {
            dir_type: Some(DirectionType::Relative),
            dir: BulletMLExpression::Const(0),
        },
    )
    .unwrap();
    doc.add_node(
        fire,
        BulletMLNode::Speed {
            spd_type: Some(SpeedType::Relative),
            spd: BulletMLExpression::Expr(e_negrank),
        },
    )
    .unwrap();
    doc.add_node(fire, BulletMLNode::Bullet(None)).unwrap();
    doc.add_node(ofs, BulletMLNode::Vanish).unwrap();
    doc.set_action_label(String::from("ofs"), ofs);

    let mut app = fresh_app();
    app.bullet_speed = SCALE;
    let mut runner = Runner::new(app, &doc);
    let mut data = fresh_data();
    run_frames(&mut runner, &doc, &mut data, 4);
    assert_eq!(
        data.log,
        vec![
            String::from("t1:bullet(0,2000)"),
            String::from("t1:bullet(0,2000)"),
            String::from("t1:vanish"),
        ]
    );

    // the first twin swings +90 then back; the mirrored change reports
    // the normalized 270 degrees
    let state = runner.app_runner.states.remove(0);
    let mut sub = Runner::new_from_state(
        {
            let mut a = fresh_app();
            a.bullet_speed = SCALE;
            a
        },
        state,
    );
    let mut sub_data = Data { log: Vec::new(), turn: 2 };
    run_frames(&mut sub, &doc, &mut sub_data, 6);
    assert_eq!(
        sub_data.log,
        vec![
            format!("t3:dir({})", 90 * SCALE),
            format!("t4:dir({})", 270 * SCALE),
            String::from("t4:simple(0,0)"),
            String::from("t4:vanish"),
        ]
    );
}

#[test]
fn crossing_seduction_pattern() {
    // Aimed twin shots spawn scripted bullets whose scripts expand a
    // shared cross action with fresh parameters, which in turn spawns
    // aimed bullets that fan out with sequence-typed speeds.
    let mut doc = BulletML::new(Some(BulletMLType::Vertical));
    let e_p1 = doc.add_expr(ExprNode::Param(1)).unwrap();
    let e_p2 = doc.add_expr(ExprNode::Param(2)).unwrap();
    let e_rank = doc.add_expr(ExprNode::Rank).unwrap();
    let e_half = doc.add_expr(ExprNode::Lit(500)).unwrap();
    let e_hr = doc.add_expr(ExprNode::Times(e_half, e_rank)).unwrap();
    let e_sum = doc.add_expr(ExprNode::Plus(e_half, e_hr)).unwrap();
    let e_16 = doc.add_expr(ExprNode::Lit(1600)).unwrap();
    let e_spd = doc.add_expr(ExprNode::Times(e_16, e_sum)).unwrap();
    let e_2 = doc.add_expr(ExprNode::Lit(2000)).unwrap();
    let e_5 = doc.add_expr(ExprNode::Lit(5000)).unwrap();
    let e_5r = doc.add_expr(ExprNode::Times(e_5, e_rank)).unwrap();
    let e_t = doc.add_expr(ExprNode::Plus(e_2, e_5r)).unwrap();
    let e_15 = doc.add_expr(ExprNode::Lit(15000)).unwrap();
    let e_15p1 = doc.add_expr(ExprNode::Times(e_15, e_p1)).unwrap();

    let top = doc
        .add_node(0, BulletMLNode::Action(Some(String::from("top"))))
        .unwrap();
    for aim in [30 * SCALE, -30 * SCALE] {
        let fire = doc.add_node(top, BulletMLNode::Fire(None)).unwrap();
        doc.add_node(
            fire,
            BulletMLNode::Direction {
                dir_type: Some(DirectionType::Aim),
                dir: BulletMLExpression::Const(aim),
            },
        )
        .unwrap();
        let call = doc
            .add_node(fire, BulletMLNode::BulletRef(String::from("parentbit")))
            .unwrap();
        doc.add_node(
            call,
            BulletMLNode::Param(BulletMLExpression::Const(if aim > 0 { SCALE } else { -SCALE })),
        )
        .unwrap();
    }
    doc.add_node(top, BulletMLNode::Wait(BulletMLExpression::Const(300 * SCALE)))
        .unwrap();

    let parentbit = doc
        .add_node(0, BulletMLNode::Bullet(Some(String::from("parentbit"))))
        .unwrap();
    doc.add_node(
        parentbit,
        BulletMLNode::Speed { spd_type: None, spd: BulletMLExpression::Const(2 * SCALE) },
    )
    .unwrap();
    let pact = doc.add_node(parentbit, BulletMLNode::Action(None)).unwrap();
    for (one, two) in [
        (BulletMLExpression::Const(3 * SCALE), BulletMLExpression::Const(0)),
        (BulletMLExpression::Const(2 * SCALE), BulletMLExpression::Expr(e_15p1)),
    ] {
        let call = doc
            .add_node(pact, BulletMLNode::ActionRef(String::from("cross")))
            .unwrap();
        doc.add_node(call, BulletMLNode::Param(one)).unwrap();
        doc.add_node(call, BulletMLNode::Param(two)).unwrap();
    }
    doc.add_node(pact, BulletMLNode::Vanish).unwrap();
    doc.set_bullet_label(String::from("parentbit"), parentbit);

    let cross = doc
        .add_node(0, BulletMLNode::Action(Some(String::from("cross"))))
        .unwrap();
    for k in 0..4i64 {
        let fire = doc.add_node(cross, BulletMLNode::Fire(None)).unwrap();
        doc.add_node(
            fire,
            BulletMLNode::Direction {
                dir_type: Some(DirectionType::Absolute),
                dir: BulletMLExpression::Const(k * 90 * SCALE),
            },
        )
        .unwrap();
        let call = doc
            .add_node(fire, BulletMLNode::BulletRef(String::from("aimbit")))
            .unwrap();
        doc.add_node(call, BulletMLNode::Param(BulletMLExpression::Expr(e_p1)))
            .unwrap();
        doc.add_node(call, BulletMLNode::Param(BulletMLExpression::Expr(e_p2)))
            .unwrap();
    }
    doc.add_node(cross, BulletMLNode::Wait(BulletMLExpression::Const(5 * SCALE)))
        .unwrap();
    doc.set_action_label(String::from("cross"), cross);

    let aimbit = doc
        .add_node(0, BulletMLNode::Bullet(Some(String::from("aimbit"))))
        .unwrap();
    doc.add_node(
        aimbit,
        BulletMLNode::Speed { spd_type: None, spd: BulletMLExpression::Const(600) },
    )
    .unwrap();
    let aact = doc.add_node(aimbit, BulletMLNode::Action(None)).unwrap();
    doc.add_node(aact, BulletMLNode::Wait(BulletMLExpression::Expr(e_p1)))
        .unwrap();
    let afire = doc.add_node(aact, BulletMLNode::Fire(None)).unwrap();
    doc.add_node(
        afire,
        BulletMLNode::Direction {
            dir_type: Some(DirectionType::Aim),
            dir: BulletMLExpression::Expr(e_p2),
        },
    )
    .unwrap();
    doc.add_node(
        afire,
        BulletMLNode::Speed { spd_type: None, spd: BulletMLExpression::Expr(e_spd) },
    )
    .unwrap();
    doc.add_node(afire, BulletMLNode::Bullet(None)).unwrap();
    let arep = doc.add_node(aact, BulletMLNode::Repeat).unwrap();
    doc.add_node(arep, BulletMLNode::Times(BulletMLExpression::Expr(e_t)))
        .unwrap();
    let abody = doc.add_node(arep, BulletMLNode::Action(None)).unwrap();
    let bfire = doc.add_node(abody, BulletMLNode::Fire(None)).unwrap();
    doc.add_node(
        bfire,
        BulletMLNode::Direction {
            dir_type: Some(DirectionType::Sequence),
            dir: BulletMLExpression::Const(0),
        },
    )
    .unwrap();
    doc.add_node(
        bfire,
        BulletMLNode::Speed {
            spd_type: Some(SpeedType::Sequence),
            spd: BulletMLExpression::Const(100),
        },
    )
    .unwrap();
    doc.add_node(bfire, BulletMLNode::Bullet(None)).unwrap();
    doc.add_node(aact, BulletMLNode::Vanish).unwrap();
    doc.set_bullet_label(String::from("aimbit"), aimbit);

    let mut runner = Runner::new(fresh_app(), &doc);
    let mut data = fresh_data();
    runner.run(&doc, &mut data);
    assert_eq!(
        data.log,
        vec![
            format!("t0:bullet({},{})", 30 * SCALE, 2 * SCALE),
            format!("t0:bullet({},{})", 330 * SCALE, 2 * SCALE),
        ]
    );

    // one spawned parentbit: two cross expansions with fresh parameter
    // lists, each fanning out four aimed spawns on the absolute axes
    let state = runner.app_runner.states.remove(0);
    let mut parent = Runner::new_from_state(fresh_app(), state);
    let mut pdata = Data { log: Vec::new(), turn: 1 };
    run_frames(&mut parent, &doc, &mut pdata, 12);
    let mut expected: Vec<String> = Vec::new();
    for t in [1u32, 6] {
        for k in 0..4i64 {
            expected.push(format!("t{}:bullet({},600)", t, k * 90 * SCALE));
        }
    }
    expected.push(String::from("t11:vanish"));
    assert_eq!(pdata.log, expected);

    // one spawned aimbit (parameters [3.0, 0]): waits three turns, one
    // aimed shot at rank-derived speed 1.6, then seven sequence shots
    // stepping the speed by 0.1 each
    let astate = parent.app_runner.states.remove(0);
    let mut aim_runner = Runner::new_from_state(fresh_app(), astate);
    let mut adata = Data { log: Vec::new(), turn: 1 };
    run_frames(&mut aim_runner, &doc, &mut adata, 6);
    let mut aexpected = vec![String::from("t4:simple(0,1600)")];
    for k in 0..7i64 {
        aexpected.push(format!("t4:simple(0,{})", 1700 + k * 100));
    }
    aexpected.push(String::from("t4:vanish"));
    assert_eq!(adata.log, aexpected);
}
