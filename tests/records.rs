use thing_service::records::{plan_set, query_thing, thing_named, Lookup, SetAction, Thing};

fn thing(id: i64, name: &str) -> Thing {
    Thing { id, name: name.to_string() }
}

/// Makes a write as the store does: plan it on the rows, then apply the
/// statement, giving a new row one more than the largest id.
fn write(rows: &mut Vec<Thing>, name: &str) -> bool {
    match plan_set(rows, name) {
        SetAction::Create => {
            let id = rows.iter().map(|t| t.id).max().unwrap_or(0) + 1;
            rows.push(thing(id, name));
            true
        }
        SetAction::Update(id) => {
            for t in rows.iter_mut() {
                if t.id == id {
                    t.name = name.to_string();
                }
            }
            true
        }
        SetAction::Refuse => false,
    }
}

fn count(rows: &[Thing], name: &str) -> usize {
    rows.iter().filter(|t| t.name == name).count()
}

#[test]
fn query_finds_absent_single_and_ambiguous() {
    let rows = vec![thing(1, "a"), thing(2, "b"), thing(3, "b")];
    assert!(matches!(query_thing(&rows, "c"), Lookup::Absent));
    match query_thing(&rows, "a") {
        Lookup::Found(t) => {
            assert_eq!(t.id, 1);
            assert_eq!(t.name, "a");
        }
        other => panic!("unexpected {:?}", other),
    }
    assert!(matches!(query_thing(&rows, "b"), Lookup::Ambiguous));
}

#[test]
fn query_on_empty_table_is_absent() {
    let rows: Vec<Thing> = Vec::new();
    assert!(matches!(query_thing(&rows, ""), Lookup::Absent));
    assert!(matches!(query_thing(&rows, "x"), Lookup::Absent));
}

#[test]
fn read_returns_name_only_when_singular() {
    let rows = vec![thing(4, "x"), thing(7, "y"), thing(9, "y")];
    assert_eq!(thing_named(&rows, "x"), Some("x".to_string()));
    assert_eq!(thing_named(&rows, "y"), None);
    assert_eq!(thing_named(&rows, "z"), None);
    assert_eq!(thing_named(&rows, "X"), None);
}

#[test]
fn plan_creates_updates_or_refuses() {
    let rows = vec![thing(1, "a"), thing(5, "b"), thing(6, "c"), thing(8, "c")];
    assert_eq!(plan_set(&rows, "new"), SetAction::Create);
    assert_eq!(plan_set(&rows, "b"), SetAction::Update(5));
    assert_eq!(plan_set(&rows, "c"), SetAction::Refuse);
}

#[test]
fn read_before_any_write_is_nothing() {
    let mut rows = Vec::new();
    assert_eq!(thing_named(&rows, "n"), None);
    assert!(write(&mut rows, "m"));
    assert!(write(&mut rows, "o"));
    assert_eq!(thing_named(&rows, "n"), None);
}

#[test]
fn read_after_write_returns_name() {
    let mut rows = vec![thing(1, "other")];
    assert!(write(&mut rows, "n"));
    assert_eq!(thing_named(&rows, "n"), Some("n".to_string()));
}

#[test]
fn writing_twice_keeps_one_record() {
    let mut rows = Vec::new();
    assert!(write(&mut rows, "n"));
    assert!(write(&mut rows, "n"));
    assert_eq!(count(&rows, "n"), 1);
    assert_eq!(rows.len(), 1);
    assert_eq!(rows[0].id, 1);
}

#[test]
fn distinct_writes_each_read_back() {
    let names = ["alpha", "beta", "gamma", "delta"];
    let mut rows = vec![thing(3, "kept")];
    for n in names.iter().rev() {
        assert!(write(&mut rows, n));
    }
    for n in names.iter() {
        assert_eq!(thing_named(&rows, n), Some(n.to_string()));
    }
    assert_eq!(thing_named(&rows, "kept"), Some("kept".to_string()));
    assert_eq!(thing_named(&rows, "epsilon"), None);
    assert_eq!(rows.len(), 5);
}

#[test]
fn same_name_writes_leave_one_record() {
    let mut rows = Vec::new();
    for _ in 0..8 {
        assert!(write(&mut rows, "same"));
    }
    assert_eq!(count(&rows, "same"), 1);
    assert_eq!(thing_named(&rows, "same"), Some("same".to_string()));
}

#[test]
fn corrupt_table_refuses_write() {
    let mut rows = vec![thing(1, "d"), thing(2, "d")];
    assert!(!write(&mut rows, "d"));
    assert_eq!(rows.len(), 2);
}
