use sokoban::command::{Command, Direction};
use sokoban::object::Object;
use sokoban::stage::Stage;

const LEVEL: &str = "##########\n# ..   p #\n# oo . o #\n#  o     #\n#    . o #\n#    .   #\n#        #\n##########";

fn loaded(text: &str) -> Stage {
    let mut stage = Stage::initialize(text.to_string());
    assert_eq!(stage.load(), Ok(()));
    stage
}

fn at(stage: &Stage, row: usize, col: usize) -> Object {
    stage.objects[row * 10 + col]
}

fn play(stage: &mut Stage, keys: &str) {
    for key in keys.chars() {
        assert!(stage.update(key).is_ok());
    }
}

#[test]
fn scenario_first_step_left() {
    let mut stage = loaded(LEVEL);
    assert_eq!(stage.find_man(), Some(17));
    assert_eq!(at(&stage, 1, 7), Object::ObjMan);
    assert!(!stage.check_clear());
    assert_eq!(stage.update('a'), Ok(Command::Move(Direction::Left)));
    assert_eq!(at(&stage, 1, 6), Object::ObjMan);
    assert_eq!(at(&stage, 1, 7), Object::ObjSpace);
    assert_eq!(stage.find_man(), Some(16));
    assert!(!stage.check_clear());
    for (row, col) in [(2, 2), (2, 3), (2, 7), (3, 3), (4, 7)] {
        assert_eq!(at(&stage, row, col), Object::ObjBlock);
    }
}

#[test]
fn scenario_block_pushed_twice_onto_goal() {
    let mut stage = loaded(LEVEL);
    play(&mut stage, "aaazzzaaww");
    assert_eq!(at(&stage, 1, 2), Object::ObjBlockOnGoal);
    assert_eq!(at(&stage, 2, 2), Object::ObjMan);
    assert_eq!(at(&stage, 2, 3), Object::ObjBlock);
    assert_eq!(at(&stage, 2, 5), Object::ObjGoal);
    play(&mut stage, "s");
    assert_eq!(at(&stage, 2, 2), Object::ObjSpace);
    assert_eq!(at(&stage, 2, 3), Object::ObjMan);
    assert_eq!(at(&stage, 2, 4), Object::ObjBlock);
    assert_eq!(at(&stage, 2, 5), Object::ObjGoal);
    play(&mut stage, "s");
    assert_eq!(at(&stage, 2, 3), Object::ObjSpace);
    assert_eq!(at(&stage, 2, 4), Object::ObjMan);
    assert_eq!(at(&stage, 2, 5), Object::ObjBlockOnGoal);
    assert!(!stage.check_clear());
}

#[test]
fn scenario_cleared_when_every_block_is_on_a_goal() {
    let mut stage = loaded(LEVEL);
    play(&mut stage, "aaazzzaawwss");
    assert!(!stage.check_clear());
    play(&mut stage, "zzaww");
    assert_eq!(at(&stage, 1, 3), Object::ObjBlockOnGoal);
    assert!(!stage.check_clear());
    play(&mut stage, "zssssszaa");
    assert_eq!(at(&stage, 4, 5), Object::ObjBlockOnGoal);
    assert!(!stage.check_clear());
    play(&mut stage, "wwwszzzszaa");
    assert_eq!(at(&stage, 5, 5), Object::ObjBlockOnGoal);
    assert_eq!(at(&stage, 5, 6), Object::ObjMan);
    for i in 0..80 {
        assert_ne!(stage.objects[i], Object::ObjBlock);
    }
    assert!(stage.check_clear());
    let blocks = stage.objects.iter().filter(|o| **o == Object::ObjBlockOnGoal).count();
    assert_eq!(blocks, 5);
}

#[test]
fn scenario_screen_after_first_step() {
    let mut stage = loaded(LEVEL);
    assert_eq!(stage.draw(), Some(format!("{}\n", LEVEL)));
    play(&mut stage, "a");
    let shown = "##########\n# ..  p  #\n# oo . o #\n#  o     #\n#    . o #\n#    .   #\n#        #\n##########\n";
    assert_eq!(stage.draw(), Some(shown.to_string()));
}

#[test]
fn scenario_reset_gives_the_stage_as_read() {
    let fresh = loaded(LEVEL);
    let mut stage = loaded(LEVEL);
    play(&mut stage, "aaazzzaawwss");
    assert_ne!(stage.objects, fresh.objects);
    assert_eq!(stage.update('r'), Ok(Command::Reset));
    assert_eq!(stage.objects, fresh.objects);
    assert_eq!(stage.origin, fresh.origin);
    play(&mut stage, "zzz");
    assert_eq!(stage.reset(), Ok(()));
    assert_eq!(stage.objects, fresh.objects);
}

#[test]
fn scenario_counts_match_the_text() {
    let stage = loaded(LEVEL);
    for (ch, object) in [
        (' ', Object::ObjSpace),
        ('#', Object::ObjWall),
        ('.', Object::ObjGoal),
        ('o', Object::ObjBlock),
        ('O', Object::ObjBlockOnGoal),
        ('p', Object::ObjMan),
        ('P', Object::ObjManOnGoal),
    ] {
        let in_text = LEVEL.chars().filter(|c| *c == ch).count();
        let in_stage = stage.objects.iter().filter(|o| **o == object).count();
        assert_eq!(in_text, in_stage);
    }
    let walls = stage.objects.iter().filter(|o| **o == Object::ObjWall).count();
    assert_eq!(walls, 32);
    let unknown = stage.objects.iter().filter(|o| **o == Object::ObjUnknown).count();
    assert_eq!(unknown, 0);
}
