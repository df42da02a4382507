use rustliza::ids::Uuid;
use rustliza::respond::extract_actions;
use rustliza::search::{tokenize, BM25};
use rustliza::summarize::format_recent_messages;
use rustliza::template::render;
use rustliza::types::{Content, Memory, Values};

#[test]
fn test_extract_actions() {
    let (text, actions) = extract_actions("I'll help with that! [SEARCH] Let me find it for you.");
    assert_eq!(actions, vec!["SEARCH"]);
    assert!(!text.contains("[SEARCH]"));
    assert_eq!(text, "I'll help with that!  Let me find it for you.");
}

#[test]
fn test_extract_no_actions() {
    let (text, actions) = extract_actions("Just a normal response.");
    assert!(actions.is_empty());
    assert_eq!(text, "Just a normal response.");
}

#[test]
fn test_format_recent_messages() {
    let agent_id = Uuid::new_v4();
    let user_id = Uuid::new_v4();
    let room_id = Uuid::new_v4();

    let messages = vec![
        Memory::new_message(agent_id, user_id, room_id, Content::text("Hello")),
        Memory::new_message(agent_id, agent_id, room_id, Content::text("Hi there!")),
    ];

    let formatted = format_recent_messages(&messages, "Eliza");
    assert!(formatted.contains("Hello"));
    assert!(formatted.contains("Eliza: Hi there!"));
}

#[test]
fn tokenization() {
    let tokens = tokenize("The quick brown fox jumps over the lazy dog");
    assert!(!tokens.contains(&"the".to_string()));
    assert!(tokens.contains(&"quick".to_string()));
    assert!(tokens.contains(&"brown".to_string()));
}

/// The BM25 score of each document, as an ordering key.
fn score_keys(engine: &BM25, query: &str) -> Vec<i64> {
    let n = engine.document_count() as f64;
    let avg = engine.total_length() as f64 / n;
    let tokens = tokenize(query);
    let mut keys = vec![];
    for d in 0..engine.document_count() {
        let len = engine.document_length(d) as f64;
        let mut score = 0.0f64;
        for s in engine.term_stats(&tokens, d) {
            let tf = s.tf as f64;
            if tf == 0.0 {
                continue;
            }
            let df = s.df as f64;
            let idf = ((n - df + 0.5) / (df + 0.5) + 1.0).ln();
            score += idf * (tf * 2.2) / (tf + 1.2 * (0.25 + 0.75 * len / avg));
        }
        keys.push(rustliza::rank::float_key(score.to_bits()));
    }
    keys
}

#[test]
fn bm25_search() {
    let mut engine = BM25::new();
    engine.add_document("Rust is a systems programming language");
    engine.add_document("Python is great for machine learning");
    engine.add_document("Rust and Python are both popular");
    engine.add_document("JavaScript runs in the browser");

    let keys = score_keys(&engine, "Rust programming");
    let results = engine.search("Rust programming", &keys, 2);
    assert!(!results.is_empty());
    assert_eq!(results[0], 0);
    assert_eq!(results, vec![0, 2]);
}

fn values(pairs: &[(&str, &str)]) -> Values {
    let mut v = Values::new();
    for (name, value) in pairs {
        v.insert(name.to_string(), value.to_string());
    }
    v
}

#[test]
fn simple_substitution() {
    let vars = values(&[("name", "Eliza"), ("bio", "A helpful AI.")]);
    assert_eq!(
        render("Hello, I am {{name}}. {{bio}}", &vars),
        "Hello, I am Eliza. A helpful AI."
    );
}

#[test]
fn if_block() {
    let vars = values(&[("lore", "Some backstory")]);
    let template = "{{#if lore}}Lore: {{lore}}{{/if}}";
    assert_eq!(render(template, &vars), "Lore: Some backstory");

    let empty = Values::new();
    assert_eq!(render(template, &empty), "");
}

#[test]
fn if_else_block() {
    let vars = values(&[("name", "Eliza")]);
    let template = "{{#if name}}Hi {{name}}{{else}}Hi stranger{{/if}}";
    assert_eq!(render(template, &vars), "Hi Eliza");

    let empty = Values::new();
    assert_eq!(render(template, &empty), "Hi stranger");
}

#[test]
fn each_block() {
    let vars = values(&[("items", "apple\nbanana\ncherry")]);
    let template = "{{#each items}}- {{this}}\n{{/each}}";
    assert_eq!(render(template, &vars), "- apple\n- banana\n- cherry\n");
}

#[test]
fn unless_block() {
    let empty = Values::new();
    let template = "{{#unless name}}No name set{{/unless}}";
    assert_eq!(render(template, &empty), "No name set");

    let vars = values(&[("name", "Eliza")]);
    assert_eq!(render(template, &vars), "");
}

#[test]
fn blocks_stand_one_after_the_other() {
    let vars = values(&[("a", "1"), ("list", "x\r\ny"), ("brace", "{{a}}"), ("none", "")]);
    let template = "{{a}}{{#if none}}no{{else}}<{{a}}>{{/if}}{{#each list}}[{{this}}{{a}}]{{/each}}\
                    {{#unless  a}}u{{/unless}}{{#unless b}}{{brace}}{{/unless}}{{#if a}}{{b}}!{{/if}}}}";
    assert_eq!(render(template, &vars), "1<1>[x1][y1]{{a}}!}}");
}

#[test]
fn a_condition_ends_at_its_own_end() {
    let two = "{{#if a}}A{{/if}} {{#if b}}B{{else}}C{{/if}}";
    assert_eq!(render(two, &values(&[("a", "1")])), "A C");
    assert_eq!(render(two, &values(&[("b", "1")])), " B");
    assert_eq!(render(two, &values(&[])), " C");
    let nested = "{{#if a}}x{{#if b}}y{{else}}z{{/if}}{{else}}{{#if b}}v{{/if}}w{{/if}}!";
    assert_eq!(render(nested, &values(&[("a", "1"), ("b", "1")])), "xy!");
    assert_eq!(render(nested, &values(&[("a", "1")])), "xz!");
    assert_eq!(render(nested, &values(&[("b", "1")])), "vw!");
    assert_eq!(render(nested, &values(&[])), "w!");
    assert_eq!(render("{{#if a}}x", &values(&[("a", "1")])), "{{#if a}}x");
    assert_eq!(render("x{{/if}}", &values(&[])), "x{{/if}}");
}

#[test]
fn documents_with_a_common_token_are_found() {
    let texts = ["quick brown foxes", "lazy dogs sleep", "the fox and the dog", ""];
    let mut engine = BM25::new();
    for (i, text) in texts.iter().enumerate() {
        assert_eq!(engine.add_document(text), i);
    }
    for query in ["fox", "dog sleeping", "brown dogs", "elephants", "the", ""] {
        let wanted = tokenize(query);
        let found = engine.search(query, &score_keys(&engine, query), texts.len());
        for (i, text) in texts.iter().enumerate() {
            let common = tokenize(text).iter().any(|t| wanted.contains(t));
            assert_eq!(found.contains(&i), common, "{} in {}", query, text);
        }
    }
    assert!(BM25::new().search("fox", &vec![], 3).is_empty());
}

#[test]
fn a_search_for_fewer_gives_the_first() {
    let mut engine = BM25::new();
    for d in ["red fox", "blue fox fox", "green tree", "fox"] {
        engine.add_document(d);
    }
    let keys = score_keys(&engine, "fox");
    let all = engine.search("fox", &keys, 4);
    assert_eq!(all.len(), 3);
    for k in 0..5 {
        let some = engine.search("fox", &keys, k);
        assert_eq!(some, all[..k.min(3)].to_vec());
    }
}
