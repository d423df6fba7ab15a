use playground::symbols::{check_symbol, symbol_count, unique_symbol, SymbolVerdict};

#[test]
fn counts_each_symbol() {
    let table = symbol_count(&"hello".to_string());
    assert_eq!(table.get('h'), Some(1));
    assert_eq!(table.get('l'), Some(2));
    assert_eq!(table.get('o'), Some(1));
    assert_eq!(table.get('z'), None);
    assert!(table.contains_key('e'));
    let mut pairs = table.to_pairs();
    pairs.sort();
    assert_eq!(pairs, vec![('e', 1), ('h', 1), ('l', 2), ('o', 1)]);
}

#[test]
fn empty_text_has_no_symbols() {
    let table = symbol_count(&String::new());
    assert!(table.to_pairs().is_empty());
}

#[test]
fn unique_symbols() {
    let table = symbol_count(&"hello\r\n".to_string());
    assert!(unique_symbol(&"h\r\n".to_string(), &table));
    assert!(!unique_symbol(&"l\r\n".to_string(), &table));
    assert!(!unique_symbol(&"q\n".to_string(), &table));
    assert!(!unique_symbol(&"hello".to_string(), &table));
    assert_eq!(check_symbol(&"hello".to_string(), &table), SymbolVerdict::TooLong);
    assert_eq!(check_symbol(&"o".to_string(), &table), SymbolVerdict::Unique);
    assert_eq!(check_symbol(&"l".to_string(), &table), SymbolVerdict::NotUnique);
}
