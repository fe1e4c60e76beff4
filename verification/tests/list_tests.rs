use gshot::enemy_list::{flag_field, parse_enemy_list, split_bytes, EnemyKind, LineError};
use gshot::spawn_schedule::SpawnSchedule;

fn text(v: &Vec<u8>) -> String {
    String::from_utf8(v.clone()).unwrap()
}

#[test]
fn split_like_str_split() {
    for s in ["", "a", "a,b", ",", "a,,b,", ",x"] {
        let got: Vec<String> = split_bytes(s.as_bytes(), b',').iter().map(text).collect();
        let want: Vec<String> = s.split(',').map(|p| p.to_string()).collect();
        assert_eq!(got, want);
    }
}

#[test]
fn reads_entries_skipping_header_comments_and_blanks() {
    let list = "kind,time,x,y\n0,1.0,10,120\n\n// comment\n1,2.5,0,130,40\nmid,3,0,150,0,60\nboss,4,0,160,0,70\n2,5,10,130,10,60,2.0,true";
    let entries = parse_enemy_list(list.as_bytes()).unwrap();
    let kinds: Vec<EnemyKind> = entries.iter().map(|e| e.kind).collect();
    assert_eq!(
        kinds,
        vec![EnemyKind::Enemy0, EnemyKind::Enemy1, EnemyKind::MiddleBoss, EnemyKind::BossEnemy, EnemyKind::Enemy2]
    );
    assert_eq!(text(&entries[0].fields[1]), "1.0");
    assert_eq!(text(&entries[1].fields[4]), "40");
    assert_eq!(entries[4].fields.len(), 8);
    assert!(flag_field(&entries[4].fields[7]));
}

#[test]
fn header_only_list_is_empty() {
    assert_eq!(parse_enemy_list(b"kind,time").unwrap().len(), 0);
    assert_eq!(parse_enemy_list(b"").unwrap().len(), 0);
}

#[test]
fn unknown_kind_is_refused() {
    let e = parse_enemy_list(b"h\n0,1,2,3\n7,1,2,3").err().unwrap();
    assert_eq!(e.line, 2);
    assert_eq!(e.reason, LineError::UnknownKind);
}

#[test]
fn short_line_is_refused() {
    let e = parse_enemy_list(b"h\nx").err().unwrap();
    assert_eq!(e.line, 1);
    assert_eq!(e.reason, LineError::MalformedPrefix);
}

#[test]
fn split_character_prefix_is_refused() {
    let e = parse_enemy_list("h\na\u{e9}z".as_bytes()).err().unwrap();
    assert_eq!(e.reason, LineError::MalformedPrefix);
}

#[test]
fn missing_time_is_refused() {
    let e = parse_enemy_list(b"h\n0;1;2;3").err().unwrap();
    assert_eq!(e.reason, LineError::MissingSpawnTime);
}

#[test]
fn missing_fields_are_refused() {
    let e = parse_enemy_list(b"h\n2,5,10,130,10,60,2.0").err().unwrap();
    assert_eq!(e.line, 1);
    assert_eq!(e.reason, LineError::MissingField);
    let e = parse_enemy_list(b"h\n0,1,2").err().unwrap();
    assert_eq!(e.reason, LineError::MissingField);
}

#[test]
fn first_error_wins() {
    let e = parse_enemy_list(b"h\nq,1\n0,1").err().unwrap();
    assert_eq!(e.line, 1);
    assert_eq!(e.reason, LineError::UnknownKind);
}

#[test]
fn flags() {
    assert!(flag_field(&b"true".to_vec()));
    assert!(!flag_field(&b"false".to_vec()));
    assert!(!flag_field(&b"True".to_vec()));
    assert!(!flag_field(&b"true\r".to_vec()));
}

#[test]
fn schedule_spawns_each_once() {
    let mut s = SpawnSchedule::new(4);
    assert_eq!(s.len(), 4);
    assert_eq!(s.take_due(&vec![true, false, true, false]), vec![0, 2]);
    assert_eq!(s.take_due(&vec![true, true, true, false]), vec![1]);
    assert_eq!(s.take_due(&vec![true, true, true, true]), vec![3]);
    assert_eq!(s.take_due(&vec![true, true, true, true]), Vec::<usize>::new());
}

#[test]
fn split_then_join_gives_text_back() {
    for s in ["", "kind,time", "0,1,,2,", ",,"] {
        let pieces: Vec<String> = split_bytes(s.as_bytes(), b',').iter().map(text).collect();
        assert!(pieces.iter().all(|p| !p.contains(',')));
        assert_eq!(pieces.join(","), s);
    }
}
