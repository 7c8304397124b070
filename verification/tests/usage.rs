use codex_usage_tray::clock::{Day, Month};
use codex_usage_tray::json::parse_json;
use codex_usage_tray::ranking::top_models;
use codex_usage_tray::usage::{
    merge_usage_map, unpriced_tokens, value_i64, ModelTables, Usage, UsageTable,
};

fn usage(total: i64) -> Usage {
    Usage {
        input_tokens: total * 2,
        cached_input_tokens: total,
        output_tokens: total * 3,
        reasoning_output_tokens: 1,
        total_tokens: total,
    }
}

fn name(s: &str) -> String {
    s.to_string()
}

#[test]
fn counts_are_added_from_json() {
    let mut u = Usage::default();
    let report = parse_json(
        r#"{"input_tokens":10,"cached_input_tokens":4,"output_tokens":"x","total_tokens":17.5}"#,
    )
    .unwrap();
    u.add_json(&report);
    u.add_json(&report);
    assert_eq!(u.input_tokens, 20);
    assert_eq!(u.cached_input_tokens, 8);
    assert_eq!(u.output_tokens, 0);
    assert_eq!(u.reasoning_output_tokens, 0);
    assert_eq!(u.total_tokens, 0);
    assert_eq!(value_i64(&report, "input_tokens"), 10);
    assert_eq!(value_i64(&report, "missing"), 0);
}

#[test]
fn counts_merge_in_any_order() {
    let mut a = usage(5);
    a.merge(&usage(7));
    let mut b = usage(7);
    b.merge(&usage(5));
    assert_eq!(a, b);
    assert_eq!(a.total_tokens, 12);
    assert_eq!(a.reasoning_output_tokens, 2);
}

#[test]
fn charged_input_is_never_negative() {
    let u = Usage { input_tokens: 3, cached_input_tokens: 10, ..Usage::default() };
    assert_eq!(u.uncached_input(), 0);
    assert_eq!(u.cached_input(), 10);
    let v = Usage { input_tokens: 10, cached_input_tokens: -3, ..Usage::default() };
    assert_eq!(v.uncached_input(), 13);
    assert_eq!(v.cached_input(), 0);
}

#[test]
fn tables_merge() {
    let mut a: UsageTable<String> = UsageTable::new();
    a.add(&name("x"), &usage(1));
    a.add(&name("y"), &usage(2));
    let mut b: UsageTable<String> = UsageTable::new();
    b.add(&name("y"), &usage(10));
    b.add(&name("z"), &usage(20));
    merge_usage_map(&mut a, &b);
    assert_eq!(a.get(&name("x")).unwrap().total_tokens, 1);
    assert_eq!(a.get(&name("y")).unwrap().total_tokens, 12);
    assert_eq!(a.get(&name("z")).unwrap().total_tokens, 20);
    assert!(a.get(&name("w")).is_none());
    assert_eq!(a.entries.len(), 3);
}

#[test]
fn tables_are_kept_by_day_and_month() {
    let day = Day { year: 2025, month: 3, day: 4 };
    let mut days: ModelTables<Day> = ModelTables::new();
    days.add(&day, &name("m"), &usage(3));
    days.add(&day, &name("m"), &usage(4));
    assert_eq!(days.get(&day).unwrap().get(&name("m")).unwrap().total_tokens, 7);
    let mut months: ModelTables<Month> = ModelTables::new();
    months.add(&day.month_of(), &name("m"), &usage(3));
    assert!(months.get(&Month { year: 2025, month: 3 }).is_some());
    assert!(months.get(&Month { year: 2024, month: 3 }).is_none());
}

#[test]
fn the_leading_models_come_first() {
    let mut table: UsageTable<String> = UsageTable::new();
    for i in 0..10 {
        table.add(&format!("m{i}"), &usage((i * 7) % 10));
    }
    table.add(&name("tie"), &usage(9));
    let top = top_models(&table);
    assert_eq!(top.len(), 8);
    let totals: Vec<i64> = top.iter().map(|(_, u)| u.total_tokens).collect();
    assert_eq!(totals, vec![9, 9, 8, 7, 6, 5, 4, 3]);
    assert_eq!(top[0].0, "m7");
    assert_eq!(top[1].0, "tie");
}

#[test]
fn the_ranking_follows_a_wrapping_negation() {
    let mut table: UsageTable<String> = UsageTable::new();
    table.add(&name("one"), &Usage { total_tokens: 1, ..Usage::default() });
    table.add(&name("least"), &Usage { total_tokens: i64::MIN, ..Usage::default() });
    let top = top_models(&table);
    assert_eq!(top[0].0, "least");
}

#[test]
fn tokens_without_a_price_are_added() {
    let mut table: UsageTable<String> = UsageTable::new();
    table.add(&name("a"), &usage(1));
    table.add(&name("b"), &usage(2));
    table.add(&name("c"), &usage(4));
    assert_eq!(unpriced_tokens(&table, &vec![false, true, false]), 5);
    assert_eq!(unpriced_tokens(&table, &vec![true, true, true]), 0);
}
