use sokoban::level::{parse, ParseError};
use sokoban::object::Object;
use sokoban::stage::Stage;
use sokoban::text::split_rows;

fn row(text: &str) -> Vec<char> {
    text.chars().collect()
}

#[test]
fn rows_end_at_line_feeds() {
    assert_eq!(split_rows("ab\ncd"), vec![row("ab"), row("cd")]);
    assert_eq!(split_rows("ab\ncd\n"), vec![row("ab"), row("cd")]);
    assert_eq!(split_rows("ab\n\ncd"), vec![row("ab"), row(""), row("cd")]);
    assert_eq!(split_rows("\n"), vec![row("")]);
    assert_eq!(split_rows(""), Vec::<Vec<char>>::new());
    assert_eq!(split_rows("ab"), vec![row("ab")]);
}

#[test]
fn rows_drop_the_carriage_return_of_a_line_ending() {
    assert_eq!(split_rows("ab\r\ncd\r\n"), vec![row("ab"), row("cd")]);
    assert_eq!(split_rows("ab\r\r\ncd"), vec![row("ab\r"), row("cd")]);
    assert_eq!(split_rows("a\rb\ncd\r"), vec![row("a\rb"), row("cd\r")]);
    assert_eq!(split_rows("\r\n"), vec![row("")]);
}

#[test]
fn rows_agree_with_lines_of_std() {
    for text in ["", "\n", "a", "a\n", "a\r\n", "a\r", "\r", "a\n\nb", "a\r\n\r\nb\n", "\n\n", "x\ry\r\n"] {
        let expected: Vec<Vec<char>> = text.lines().map(|l| l.chars().collect()).collect();
        assert_eq!(split_rows(text), expected);
    }
}

#[test]
fn parse_reads_each_character() {
    let objects = parse(" #.oOpP").unwrap();
    assert_eq!(objects[0], Object::ObjSpace);
    assert_eq!(objects[1], Object::ObjWall);
    assert_eq!(objects[2], Object::ObjGoal);
    assert_eq!(objects[3], Object::ObjBlock);
    assert_eq!(objects[4], Object::ObjBlockOnGoal);
    assert_eq!(objects[5], Object::ObjMan);
    assert_eq!(objects[6], Object::ObjManOnGoal);
    for i in 7..80 {
        assert_eq!(objects[i], Object::ObjUnknown);
    }
}

#[test]
fn parse_puts_rows_at_the_width_of_the_stage() {
    let objects = parse("#\n##\n\n.p").unwrap();
    assert_eq!(objects[0], Object::ObjWall);
    assert_eq!(objects[1], Object::ObjUnknown);
    assert_eq!(objects[10], Object::ObjWall);
    assert_eq!(objects[11], Object::ObjWall);
    assert_eq!(objects[12], Object::ObjUnknown);
    assert_eq!(objects[20], Object::ObjUnknown);
    assert_eq!(objects[30], Object::ObjGoal);
    assert_eq!(objects[31], Object::ObjMan);
    assert_eq!(objects[32], Object::ObjUnknown);
}

#[test]
fn parse_of_empty_text_knows_no_cell() {
    assert_eq!(parse(""), Ok([Object::ObjUnknown; 80]));
}

#[test]
fn parse_takes_both_line_endings() {
    assert_eq!(parse("#p\r\n#.\r\n"), parse("#p\n#."));
}

#[test]
fn parse_names_the_first_invalid_character() {
    assert_eq!(
        parse("##\n#x#\n?"),
        Err(ParseError::InvalidCharacter { ch: 'x', row: 1, col: 1 })
    );
    assert_eq!(parse("A"), Err(ParseError::InvalidCharacter { ch: 'A', row: 0, col: 0 }));
    assert_eq!(
        parse("#\n#\n#\n  \t"),
        Err(ParseError::InvalidCharacter { ch: '\t', row: 3, col: 2 })
    );
    assert_eq!(
        parse("# \r#\n"),
        Err(ParseError::InvalidCharacter { ch: '\r', row: 0, col: 2 })
    );
    assert_eq!(
        parse("#é#"),
        Err(ParseError::InvalidCharacter { ch: 'é', row: 0, col: 1 })
    );
}

#[test]
fn parse_refuses_a_row_that_is_too_long() {
    assert_eq!(parse("##########"), parse("##########\n"));
    assert!(parse("##########").is_ok());
    assert_eq!(parse("###########"), Err(ParseError::DimensionMismatch));
    assert_eq!(parse("#\n           \n#"), Err(ParseError::DimensionMismatch));
}

#[test]
fn parse_refuses_too_many_rows() {
    assert!(parse("#\n#\n#\n#\n#\n#\n#\n#").is_ok());
    assert!(parse("#\n#\n#\n#\n#\n#\n#\n#\n").is_ok());
    assert_eq!(parse("#\n#\n#\n#\n#\n#\n#\n#\n#"), Err(ParseError::DimensionMismatch));
    assert_eq!(parse("\n\n\n\n\n\n\n\n\n"), Err(ParseError::DimensionMismatch));
}

#[test]
fn parse_reports_the_dimensions_before_a_character() {
    assert_eq!(parse("x\n###########"), Err(ParseError::DimensionMismatch));
}

#[test]
fn initialize_knows_no_cell() {
    let stage = Stage::initialize("#p#".to_string());
    assert_eq!(stage.origin, "#p#");
    assert_eq!(stage.objects, [Object::ObjUnknown; 80]);
    assert_eq!(stage.find_man(), None);
}

#[test]
fn load_reads_the_text() {
    let mut stage = Stage::initialize("#p.#".to_string());
    assert_eq!(stage.load(), Ok(()));
    assert_eq!(stage.objects.to_vec(), parse("#p.#").unwrap().to_vec());
    assert_eq!(stage.objects[1], Object::ObjMan);
    assert_eq!(stage.origin, "#p.#");
}

#[test]
fn load_of_a_bad_text_leaves_the_cells() {
    let mut stage = Stage::initialize("#p!".to_string());
    stage.objects[5] = Object::ObjGoal;
    let before = stage.objects;
    assert_eq!(stage.load(), Err(ParseError::InvalidCharacter { ch: '!', row: 0, col: 2 }));
    assert_eq!(stage.objects, before);
    assert_eq!(stage.reset(), Err(ParseError::InvalidCharacter { ch: '!', row: 0, col: 2 }));
    assert_eq!(stage.objects, before);
}

#[test]
fn from_char_knows_seven_characters() {
    assert_eq!(Object::from_char(' '), Some(Object::ObjSpace));
    assert_eq!(Object::from_char('#'), Some(Object::ObjWall));
    assert_eq!(Object::from_char('.'), Some(Object::ObjGoal));
    assert_eq!(Object::from_char('o'), Some(Object::ObjBlock));
    assert_eq!(Object::from_char('O'), Some(Object::ObjBlockOnGoal));
    assert_eq!(Object::from_char('p'), Some(Object::ObjMan));
    assert_eq!(Object::from_char('P'), Some(Object::ObjManOnGoal));
    assert_eq!(Object::from_char('0'), None);
    assert_eq!(Object::from_char('\n'), None);
}

#[test]
fn glyph_is_the_character_that_is_read() {
    for ch in [' ', '#', '.', 'o', 'O', 'p', 'P'] {
        let object = Object::from_char(ch).unwrap();
        assert_eq!(object.glyph(), Some(ch.to_string().as_str()));
    }
    assert_eq!(Object::ObjUnknown.glyph(), None);
}
