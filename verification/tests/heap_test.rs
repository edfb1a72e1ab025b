use jvmkill::heap::class_formatter::ClassFormatter;
use jvmkill::heap::contents::Contents;
use jvmkill::heap::contents::Statistics;
use jvmkill::heap::stats::Stats;
use jvmkill::heap::tagger::Tagger;
use jvmkill::heap::types::Types;

fn assert_print(s: &Stats, expected: &str) {
    assert_eq!(s.print(), expected.to_string());
}

#[test]
fn stats_short_signature() {
    let mut s = Stats::new(100);
    s.recordObject(String::from("aaa"), 20);
    assert_print(
        &s,
        "\
        | Instance Count | Total Bytes | Class Name |\n\
        | 1              | 20          | aaa        |\n",
    );
}

#[test]
fn stats_long_signature() {
    let mut s = Stats::new(100);
    s.recordObject(String::from("abcdefghijklmn"), 20);
    assert_print(
        &s,
        "\
        | Instance Count | Total Bytes | Class Name     |\n\
        | 1              | 20          | abcdefghijklmn |\n",
    );
}

#[test]
fn stats_counting() {
    let mut s = Stats::new(100);
    s.recordObject(String::from("a"), 20);
    s.recordObject(String::from("a"), 15);
    assert_print(
        &s,
        "\
        | Instance Count | Total Bytes | Class Name |\n\
        | 2              | 35          | a          |\n",
    );
}

#[test]
fn stats_sorting() {
    let mut s = Stats::new(100);
    s.recordObject(String::from("b"), 20);
    s.recordObject(String::from("a"), 30);
    s.recordObject(String::from("c"), 10);
    assert_print(
        &s,
        "\
        | Instance Count | Total Bytes | Class Name |\n\
        | 1              | 30          | a          |\n\
        | 1              | 20          | b          |\n\
        | 1              | 10          | c          |\n",
    );
}

#[test]
fn truncation() {
    let mut s = Stats::new(2);
    s.recordObject(String::from("b"), 20);
    s.recordObject(String::from("a"), 30);
    s.recordObject(String::from("c"), 10);
    assert_print(
        &s,
        "\
        | Instance Count | Total Bytes | Class Name |\n\
        | 1              | 30          | a          |\n\
        | 1              | 20          | b          |\n",
    );
}

#[test]
fn zero_max_entries_keeps_every_row() {
    let mut s = Stats::new(0);
    s.recordObject(String::from("b"), 20);
    s.recordObject(String::from("a"), 30);
    s.recordObject(String::from("c"), 10);
    assert_print(
        &s,
        "\
        | Instance Count | Total Bytes | Class Name |\n\
        | 1              | 30          | a          |\n\
        | 1              | 20          | b          |\n\
        | 1              | 10          | c          |\n",
    );
}

#[test]
fn remembers_tagged_classes() {
    let mut t = Tagger::new();
    let c = String::from("c");
    let tag_c = t.class_tag(&c);
    let d = String::from("d");
    let tag_d = t.class_tag(&d);

    assert_eq!(c, t.class_signature(tag_c).expect("test error"));
    assert_eq!(d, t.class_signature(tag_d).expect("test error"));
}

#[test]
fn tag_classes_and_get() {
    let mut t = Types::new();
    t.tag_classes(vec![
        String::from("alpha-type"),
        String::from("bravo-type"),
        String::from("charlie-type"),
    ]);

    assert_eq!(t.get(0), "alpha-type");
    assert_eq!(t.get(1), "bravo-type");
    assert_eq!(t.get(2), "charlie-type");
}

#[test]
fn analyze_heap_and_get_contents() {
    let mut c = Contents::new();

    c.visit(0, 10, 0);
    c.visit(0, 10, 0);
    c.visit(1, 20, 0);
    c.visit(1, 20, 0);
    c.visit(2, 30, 0);
    c.visit(2, 30, 0);

    c.analyze_heap();

    assert_eq!(
        c.get_contents(2),
        vec![
            Statistics { count: 2, total_size: 60, tag: 2 },
            Statistics { count: 2, total_size: 40, tag: 1 }
        ]
    );
}

#[test]
fn visited_mark_counts_each_object_once() {
    let mut c = Contents::new();

    let (cell, rc) = c.visit(5, 10, 0);
    assert_eq!(rc, jvmkill::heap::contents::VISIT_OBJECTS);

    let (cell2, rc2) = c.visit(5, 10, cell);
    assert_eq!(cell2, cell);
    assert_eq!(rc2, 0);

    c.analyze_heap();
    assert_eq!(c.get_contents(10), vec![Statistics { count: 1, total_size: 10, tag: 5 }]);
}

#[test]
fn visited_mark_never_collides_with_tags() {
    let mut c = Contents::new();

    let (cell, _) = c.visit(7, 10, 0);
    assert_eq!(cell & jvmkill::heap::contents::TAG_VISITED_MASK, jvmkill::heap::contents::TAG_VISITED_MASK);
    assert_eq!(cell & !jvmkill::heap::contents::TAG_VISITED_MASK, 0);
}

#[test]
fn heaphistogram_print_works() {
    let mut tagger = Tagger::new();
    let t1 = tagger.class_tag(&String::from("sig1"));
    let t2 = tagger.class_tag(&String::from("sig2"));

    let mut heap_stats = Stats::new(100);
    jvmkill::controller::record_visit(&tagger, &mut heap_stats, t1, 10);
    jvmkill::controller::record_visit(&tagger, &mut heap_stats, t2, 100);
    jvmkill::controller::record_visit(&tagger, &mut heap_stats, t2, 100);

    assert_eq!(heap_stats.print(), "| Instance Count | Total Bytes | Class Name |
| 2              | 200         | sig2       |
| 1              | 10          | sig1       |
".to_string());
}

#[test]
fn unassigned_tag_is_ignored() {
    let tagger = Tagger::new();
    let mut heap_stats = Stats::new(100);
    jvmkill::controller::record_visit(&tagger, &mut heap_stats, 7, 10);
    assert_eq!(heap_stats.print(), "| Instance Count | Total Bytes | Class Name |
".to_string());
}

#[test]
fn arrays() {
    assert_eq!(ClassFormatter::new().format(&String::from("[[Z")).unwrap(), "boolean[][]");
}

#[test]
fn boolean() {
    assert_eq!(ClassFormatter::new().format(&String::from("Z")).unwrap(), "boolean");
}

#[test]
fn byte() {
    assert_eq!(ClassFormatter::new().format(&String::from("B")).unwrap(), "byte");
}

#[test]
fn char() {
    assert_eq!(ClassFormatter::new().format(&String::from("C")).unwrap(), "char");
}

#[test]
fn class() {
    assert_eq!(
        ClassFormatter::new().format(&String::from("Lorg/cloudfoundry/MyClass;")).unwrap(),
        "org.cloudfoundry.MyClass"
    );
}

#[test]
fn double() {
    assert_eq!(ClassFormatter::new().format(&String::from("D")).unwrap(), "double");
}

#[test]
fn float() {
    assert_eq!(ClassFormatter::new().format(&String::from("F")).unwrap(), "float");
}

#[test]
fn primitive_int() {
    assert_eq!(ClassFormatter::new().format(&String::from("I")).unwrap(), "int");
}

#[test]
fn invalid() {
    match ClassFormatter::new().format(&String::from("Q")) {
        Ok(_) => panic!("an unrecognized leading character must be reported"),
        Err(e) => assert!(e.message().contains("invalid class name: Q")),
    }
}

#[test]
fn long() {
    assert_eq!(ClassFormatter::new().format(&String::from("J")).unwrap(), "long");
}

#[test]
fn short() {
    assert_eq!(ClassFormatter::new().format(&String::from("S")).unwrap(), "short");
}

#[test]
fn demangles_short_class_name() {
    assert_eq!(ClassFormatter::new().format(&String::from("Lorg/x/Y;")).unwrap(), "org.x.Y");
}
