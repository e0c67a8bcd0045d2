use mjcore::value::mj_value;

#[test]
fn new_map_is_map_shaped() {
    let v = mj_value::new_map();
    assert!(v.shape_is_map());
    assert!(!v.shape_is_list());
    assert_eq!(v.map_len(), 0);
}

#[test]
fn new_list_is_list_shaped() {
    let v = mj_value::new_list();
    assert!(v.shape_is_list());
    assert!(!v.shape_is_map());
    assert_eq!(v.list_len(), 0);
}

#[test]
fn setters_keep_map_shape() {
    let mut v = mj_value::new_map();
    v.set_str("a", "x");
    v.set_bool("b", true);
    v.set_i8("c", -1);
    v.set_i16("d", -2);
    v.set_i32("e", -3);
    v.set_i64("f", -4);
    v.set_u8("g", 1);
    v.set_u16("h", 2);
    v.set_u32("i", 3);
    v.set_u64("j", 4);
    v.set_f32_text("k", "1.5");
    v.set_f64_text("l", "2.5");
    assert!(v.shape_is_map());
    assert_eq!(v.map_len(), 12);
}

#[test]
fn appends_keep_list_shape() {
    let mut v = mj_value::new_list();
    v.append_str("x");
    v.append_bool(false);
    v.append_i8(-1);
    v.append_i16(-2);
    v.append_i32(-3);
    v.append_i64(-4);
    v.append_u8(1);
    v.append_u16(2);
    v.append_u32(3);
    v.append_u64(4);
    v.append_f32_text("1.5");
    v.append_f64_text("2.5");
    assert!(v.shape_is_list());
    assert_eq!(v.list_len(), 12);
}

#[test]
fn set_overwrites_existing_key_in_place() {
    let mut v = mj_value::new_map();
    v.set_i64("n", 1);
    v.set_str("other", "kept");
    v.set_i64("n", 42);
    assert_eq!(v.map_len(), 2);
    match v.get("n") {
        Some(mj_value::I64(x)) => assert_eq!(*x, 42),
        other => panic!("unexpected entry: {:?}", other),
    }
    match v.get("other") {
        Some(mj_value::Str(s)) => assert_eq!(s, "kept"),
        other => panic!("unexpected entry: {:?}", other),
    }
}

#[test]
fn get_of_absent_key_is_none() {
    let mut v = mj_value::new_map();
    v.set_bool("present", true);
    assert!(v.get("absent").is_none());
}

#[test]
fn append_preserves_insertion_order() {
    let mut v = mj_value::new_list();
    v.append_i64(10);
    v.append_i64(20);
    v.append_i64(30);
    assert_eq!(v.list_len(), 3);
    match v.item_at(0) {
        mj_value::I64(x) => assert_eq!(*x, 10),
        other => panic!("unexpected item: {:?}", other),
    }
    match v.item_at(2) {
        mj_value::I64(x) => assert_eq!(*x, 30),
        other => panic!("unexpected item: {:?}", other),
    }
}

#[test]
fn set_value_copies_independently() {
    let mut child = mj_value::new_map();
    child.set_str("inner", "before");
    let mut parent = mj_value::new_map();
    parent.set_value("kid", &child);
    // mutate the source after the copy
    child.set_str("inner", "after");
    child.set_i64("extra", 7);
    let copy = parent.get("kid").expect("copy is present");
    assert_eq!(copy.map_len(), 1);
    match copy.get("inner") {
        Some(mj_value::Str(s)) => assert_eq!(s, "before"),
        other => panic!("unexpected entry: {:?}", other),
    }
}

#[test]
fn append_value_copies_independently() {
    let mut child = mj_value::new_list();
    child.append_i64(1);
    let mut parent = mj_value::new_list();
    parent.append_value(&child);
    child.append_i64(2);
    let copy = parent.item_at(0);
    assert_eq!(copy.list_len(), 1);
}

#[test]
fn deep_copy_equals_source() {
    let mut v = mj_value::new_map();
    v.set_str("a", "x");
    let mut inner = mj_value::new_list();
    inner.append_u64(9);
    v.set_value("l", &inner);
    let c = v.deep_copy();
    assert_eq!(c, v);
    assert_eq!(c.to_json(), v.to_json());
}

#[test]
fn set_list_builds_list_entries() {
    let mut v = mj_value::new_map();
    v.set_list_i64("xs", &vec![1, 2, 3]);
    v.set_list_str("ss", &vec!["a".to_string(), "b".to_string()]);
    v.set_list_bool("bs", &vec![true, false]);
    v.set_list_u8("u8s", &vec![255]);
    v.set_list_u16("u16s", &vec![65535]);
    v.set_list_u32("u32s", &vec![1]);
    v.set_list_u64("u64s", &vec![2]);
    v.set_list_i8("i8s", &vec![-128]);
    v.set_list_i16("i16s", &vec![-1]);
    v.set_list_i32("i32s", &vec![-2]);
    v.set_list_f64_text("fs", &vec!["1.5".to_string()]);
    v.set_list_f32_text("f32s", &vec!["0.25".to_string()]);
    let mut items = mj_value::new_list();
    items.append_i64(5);
    v.set_list_value("vs", &vec![items]);
    let xs = v.get("xs").expect("xs present");
    assert!(xs.shape_is_list());
    assert_eq!(xs.list_len(), 3);
    match xs.item_at(1) {
        mj_value::I64(x) => assert_eq!(*x, 2),
        other => panic!("unexpected item: {:?}", other),
    }
    let vs = v.get("vs").expect("vs present");
    assert_eq!(vs.list_len(), 1);
    assert_eq!(vs.item_at(0).list_len(), 1);
}
