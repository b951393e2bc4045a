use nextshell::code_indexer::{key_of, CodeIndexer};

#[test]
fn test_code_indexer_new() {
    let indexer = CodeIndexer::new();
    assert_eq!(indexer.suggest("any_query").len(), 0);
}

#[test]
fn test_code_indexer_index_code() {
    let mut indexer = CodeIndexer::new();
    indexer.index_code("fn main() {}");
    let suggestions = indexer.suggest("main");
    assert_eq!(suggestions.len(), 1);
    assert_eq!(suggestions[0], "fn main() {}");
}

#[test]
fn test_code_indexer_suggest() {
    let mut indexer = CodeIndexer::new();
    indexer.index_code("fn main() {}");
    indexer.index_code("fn test() {}");
    let suggestions = indexer.suggest("main");
    assert_eq!(suggestions.len(), 1);
    assert_eq!(suggestions[0], "fn main() {}");
    let suggestions = indexer.suggest("fn");
    assert_eq!(suggestions.len(), 2);
}

#[test]
fn test_code_indexer_collision() {
    let mut indexer = CodeIndexer::new();
    indexer.index_code("fn main() {}");
    indexer.index_code("fn test() {}");
    let suggestions = indexer.suggest("main");
    assert_eq!(suggestions.len(), 1);
    assert_eq!(suggestions[0], "fn main() {}");
}

#[test]
fn key_is_lower_hex_md5() {
    assert_eq!(key_of(""), "d41d8cd98f00b204e9800998ecf8427e");
    assert_eq!(key_of("abc"), "900150983cd24fb0d6963f7d28e17f72");
}

#[test]
fn same_snippet_is_indexed_once() {
    let mut indexer = CodeIndexer::new();
    indexer.index_code("let x = 1;");
    indexer.index_code("let x = 1;");
    assert_eq!(indexer.suggest("x").len(), 1);
}

#[test]
fn suggestions_keep_insertion_order() {
    let mut indexer = CodeIndexer::new();
    indexer.index_code("b query");
    indexer.index_code("a query");
    indexer.index_code("nothing");
    assert_eq!(indexer.suggest("query"), vec!["b query".to_string(), "a query".to_string()]);
    assert_eq!(indexer.suggest("").len(), 3);
    assert_eq!(indexer.suggest("absent").len(), 0);
}
