use playground::counters::{
    apply_module_result, change_counters, compose_module_input, counter_delete, counter_get,
    custom_counter, is_module_file, snapshot, take_module_output, Counters, CountersDto,
    CustomAdd, CustomCounterQuery, ModuleOutput, ModuleStep,
};
use playground::wasm_counters;

fn query(n: &str, a: &str, m: &str, e: &str) -> CustomCounterQuery {
    CustomCounterQuery {
        n: n.to_string(),
        a: a.to_string(),
        m: m.to_string(),
        e: e.to_string(),
        counter: None,
    }
}

fn named(counters: &Counters, name: &str) -> Option<u32> {
    counters.custom_counters.get(&name.to_string())
}

#[test]
fn change_counters_adds_and_clears() {
    let mut incr = 5;
    let mut swap = 9;
    assert_eq!(change_counters(&mut incr, &mut swap, 3), 8);
    assert_eq!(incr, 8);
    assert_eq!(swap, 0);
}

#[test]
fn plain_get_counts_one() {
    let mut counters = Counters::new();
    counters.delete_counter = 4;
    counter_get(&mut counters, None, None);
    assert_eq!(counters.counter, 1);
    assert_eq!(counters.delete_counter, 0);
    counter_get(&mut counters, None, Some(CustomAdd { counter: 10 }));
    assert_eq!(counters.counter, 11);
}

#[test]
fn named_get_counts_under_the_name() {
    let mut counters = Counters::default();
    counter_get(&mut counters, Some(query("a", "b", "c", "d")), Some(CustomAdd { counter: 5 }));
    assert_eq!(named(&counters, "abcd"), Some(5));
    assert_eq!(counters.counter, 1);
    counter_get(&mut counters, Some(query("ab", "", "cd", "")), Some(CustomAdd { counter: 2 }));
    assert_eq!(named(&counters, "abcd"), Some(7));
    assert_eq!(counters.counter, 2);
    assert_eq!(counters.custom_counters.len(), 1);
}

#[test]
fn named_counter_wraps_around() {
    let mut counters = Counters::new();
    counter_get(&mut counters, Some(query("x", "", "", "")), Some(CustomAdd { counter: u32::MAX }));
    counter_get(&mut counters, Some(query("x", "", "", "")), Some(CustomAdd { counter: 3 }));
    assert_eq!(named(&counters, "x"), Some(2));
}

#[test]
fn delete_resets_and_counts() {
    let mut counters = Counters::new();
    counter_get(&mut counters, None, Some(CustomAdd { counter: 4 }));
    let message = counter_delete(&mut counters);
    assert_eq!(message, "Counter reset, delete counter is 1");
    assert_eq!(counters.counter, 0);
    let message = counter_delete(&mut counters);
    assert_eq!(message, "Counter reset, delete counter is 2");
}

#[test]
fn custom_counter_by_value() {
    let counters = custom_counter(Counters::new(), Some(query("n", "a", "m", "e")), None);
    assert_eq!(named(&counters, "name"), Some(1));
    assert_eq!(counters.counter, 1);
}

#[test]
fn module_counter_reads_amount_text() {
    let q = Some(wasm_counters::CustomCounterQuery {
        n: "p".to_string(),
        a: "q".to_string(),
        m: String::new(),
        e: String::new(),
    });
    let add = Some(wasm_counters::CustomAdd { counter: "12".to_string() });
    let counters = wasm_counters::custom_counter(Counters::new(), &q, &add);
    assert_eq!(named(&counters, "pq"), Some(12));
    let bad = Some(wasm_counters::CustomAdd { counter: "twelve".to_string() });
    let counters = wasm_counters::custom_counter(counters, &q, &bad);
    assert_eq!(named(&counters, "pq"), Some(13));
    let counters = wasm_counters::custom_counter(counters, &None, &add);
    assert_eq!(counters.counter, 2 + 12);
}

#[test]
fn module_input_layout() {
    assert_eq!(compose_module_input("a=1", "{}", None), "a=1\0{}");
    assert_eq!(compose_module_input("", "{}", None), "{}");
    assert_eq!(compose_module_input("", "{}", Some("[2]")), "{}\0[2]");
    assert_eq!(compose_module_input("q", "c", Some("k")), "q\0c\0k");
}

#[test]
fn snapshot_and_apply() {
    let mut counters = Counters::new();
    counter_get(&mut counters, Some(query("a", "", "", "")), Some(CustomAdd { counter: 3 }));
    let dto = snapshot(&counters);
    assert_eq!(dto.counter, 1);
    assert_eq!(dto.custom_counters, vec![("a".to_string(), 3)]);
    apply_module_result(&mut counters, &dto);
    assert_eq!(named(&counters, "a"), Some(3));
    assert_eq!(counters.custom_counters.len(), 1);
    let result = CountersDto {
        counter: 40,
        delete_counter: 2,
        custom_counters: vec![("b".to_string(), 9), ("a".to_string(), 1)],
    };
    apply_module_result(&mut counters, &result);
    assert_eq!(counters.counter, 40);
    assert_eq!(counters.delete_counter, 2);
    assert_eq!(named(&counters, "a"), Some(1));
    assert_eq!(named(&counters, "b"), Some(9));
}

#[test]
fn module_files_are_found_by_name() {
    assert!(is_module_file("counters.wasm"));
    assert!(is_module_file("a.wasm.bak"));
    assert!(is_module_file(".wasm"));
    assert!(!is_module_file("counters.was"));
    assert!(!is_module_file("wasm"));
    assert!(!is_module_file(""));
    assert!(!is_module_file("main.rs"));
}

#[test]
fn module_outputs_are_taken_as_the_server_does() {
    let mut counters = Counters::new();
    counters.counter = 4;
    assert_eq!(take_module_output(&mut counters, &ModuleOutput::Trapped), ModuleStep::Continue);
    assert_eq!(counters.counter, 4);
    assert_eq!(take_module_output(&mut counters, &ModuleOutput::Unreadable), ModuleStep::Continue);
    assert_eq!(counters.counter, 4);
    assert_eq!(take_module_output(&mut counters, &ModuleOutput::NotText), ModuleStep::Fail);
    assert_eq!(counters.counter, 4);
    let dto = CountersDto {
        counter: 9,
        delete_counter: 2,
        custom_counters: vec![("name".to_string(), 5)],
    };
    assert_eq!(take_module_output(&mut counters, &ModuleOutput::Counters(dto)), ModuleStep::Continue);
    assert_eq!(counters.counter, 9);
    assert_eq!(counters.delete_counter, 2);
    assert_eq!(named(&counters, "name"), Some(5));
}
