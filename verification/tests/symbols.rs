use pie_vm::assembler::{Symbol, SymbolTable, SymbolType};

#[test]
fn test_symbol_table() {
    let mut st = SymbolTable::new();
    st.add_symbol(Symbol::new("test".to_string(), SymbolType::Label, 4 * 10));
    assert_eq!(st.symbols.len(), 1);
    assert_eq!(st.symbol_value("test").unwrap(), 4 * 10);
    assert_eq!(st.symbol_value("test2"), None);
}

#[test]
fn the_first_symbol_of_a_name_gives_its_value() {
    let mut st = SymbolTable::new();
    assert_eq!(st.len(), 0);
    assert!(!st.has_symbol(&"a".to_string()));
    st.add_symbol(Symbol::new("a".to_string(), SymbolType::Label, 1));
    st.add_symbol(Symbol::new("b".to_string(), SymbolType::Label, 2));
    st.add_symbol(Symbol::new("a".to_string(), SymbolType::Label, 3));
    assert_eq!(st.len(), 3);
    assert!(st.has_symbol(&"a".to_string()));
    assert!(st.has_symbol(&"b".to_string()));
    assert!(!st.has_symbol(&"c".to_string()));
    assert_eq!(st.symbol_value("a"), Some(1));
    assert_eq!(st.symbol_value("b"), Some(2));
}

#[test]
fn set_symbol_offset_updates_every_symbol_of_the_name() {
    let mut st = SymbolTable::new();
    st.add_symbol(Symbol::new("a".to_string(), SymbolType::Label, 1));
    st.add_symbol(Symbol::new("b".to_string(), SymbolType::Label, 2));
    st.add_symbol(Symbol::new("a".to_string(), SymbolType::Label, 3));
    st.set_symbol_offset(&"a".to_string(), 9);
    let offsets: Vec<u32> = st.symbols.iter().map(|s| s.offset).collect();
    assert_eq!(offsets, vec![9, 2, 9]);
    st.set_symbol_offset(&"missing".to_string(), 7);
    let offsets: Vec<u32> = st.symbols.iter().map(|s| s.offset).collect();
    assert_eq!(offsets, vec![9, 2, 9]);
    assert_eq!(st.len(), 3);
}
