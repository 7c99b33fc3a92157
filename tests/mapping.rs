use zenv::{expand_value, Line, Lines, VarMap};

fn env_of(pairs: &[(&str, &str)]) -> VarMap {
    let mut m = VarMap::new();
    for (k, v) in pairs {
        m.insert(k.to_string(), v.to_string());
    }
    m
}

fn value(m: &VarMap, k: &str) -> Option<String> {
    m.get(k).cloned()
}

#[test]
fn basic_plain() {
    let m = Lines::from("BASIC=basic").to_hash_map();
    assert_eq!(value(&m, "BASIC"), Some("basic".to_string()));
    assert_eq!(m.len(), 1);
}

#[test]
fn single_quoted_plain() {
    let m = Lines::from("QUOTED='quoted'").to_hash_map();
    assert_eq!(value(&m, "QUOTED"), Some("quoted".to_string()));
    assert_eq!(m.len(), 1);
}

#[test]
fn unquoted_value_trimmed_in_map() {
    let m = Lines::from("  PORT = 5000   \n").to_hash_map();
    assert_eq!(value(&m, "PORT"), Some("5000".to_string()));
}

#[test]
fn braced_reference_expands() {
    let text = "\nBASIC=basic\nEXPANDED=\"${BASIC}_is_expanded\"\n";
    let m = Lines::from(text).expand(&VarMap::new());
    assert_eq!(value(&m, "BASIC"), Some("basic".to_string()));
    assert_eq!(value(&m, "EXPANDED"), Some("basic_is_expanded".to_string()));
    assert_eq!(m.len(), 2);
}

#[test]
fn undefined_reference_is_empty() {
    let m = Lines::from("X=\"${UNSET}\"").expand(&VarMap::new());
    assert_eq!(value(&m, "X"), Some("".to_string()));
}

#[test]
fn bare_reference_keeps_terminator() {
    let m = Lines::from("A=hi\nB=\"$A!\"").expand(&VarMap::new());
    assert_eq!(value(&m, "B"), Some("hi!".to_string()));
}

#[test]
fn duplicate_keys_last_wins() {
    let m = Lines::from("K=1\nOTHER=x\nK=2").to_hash_map();
    assert_eq!(value(&m, "K"), Some("2".to_string()));
    assert_eq!(m.len(), 2);
}

#[test]
fn plain_projection_repeats() {
    let lines = Lines::from("A=1\nB='2'\nC=\"$A\"");
    let first = lines.to_hash_map();
    let second = lines.to_hash_map();
    for k in ["A", "B", "C"] {
        assert_eq!(value(&first, k), value(&second, k));
    }
    assert_eq!(first.len(), second.len());
    assert_eq!(value(&first, "C"), Some("$A".to_string()));
}

#[test]
fn new_keeps_only_assignments() {
    let lines = vec![
        Line::from("PORT=5000"),
        Line::from("# comment"),
        Line::from(""),
        Line::from("junk"),
        Line::from("BASIC=basic"),
    ];
    let m = Lines::new(lines).to_hash_map();
    assert_eq!(value(&m, "PORT"), Some("5000".to_string()));
    assert_eq!(value(&m, "BASIC"), Some("basic".to_string()));
    assert_eq!(m.len(), 2);
}

#[test]
fn environment_is_the_fallback() {
    let env = env_of(&[("HOME", "/home/u"), ("A", "from_env")]);
    let m = Lines::from("A=file\nP=\"$HOME/x ${A}\"").expand(&env);
    assert_eq!(value(&m, "P"), Some("/home/u/x file".to_string()));
}

#[test]
fn only_double_quoted_values_expand() {
    let m = Lines::from("A=v\nB=$A\nC='$A'\nD=\"$A\"").expand(&VarMap::new());
    assert_eq!(value(&m, "B"), Some("$A".to_string()));
    assert_eq!(value(&m, "C"), Some("$A".to_string()));
    assert_eq!(value(&m, "D"), Some("v".to_string()));
}

#[test]
fn self_reference_sees_raw_value() {
    let m = Lines::from("X=\"a${X}\"").expand(&VarMap::new());
    assert_eq!(value(&m, "X"), Some("aa${X}".to_string()));
}

#[test]
fn forward_reference_sees_raw_value() {
    let m = Lines::from("A=\"${B}\"\nB=\"${C}\"\nC=c").expand(&VarMap::new());
    assert_eq!(value(&m, "A"), Some("${C}".to_string()));
    assert_eq!(value(&m, "B"), Some("c".to_string()));
}

#[test]
fn unterminated_brace_takes_the_rest() {
    let env = env_of(&[("AB", "ab")]);
    assert_eq!(expand_value("x${AB", &VarMap::new(), &env), "xab");
    assert_eq!(expand_value("x${A}B", &VarMap::new(), &env), "xB");
}

#[test]
fn dollar_at_end_and_edge_names() {
    let vars = env_of(&[("A", "1"), ("A_2", "2")]);
    let env = VarMap::new();
    assert_eq!(expand_value("cost$", &vars, &env), "cost");
    assert_eq!(expand_value("$A_2-$A", &vars, &env), "2-1");
    assert_eq!(expand_value("$A$A", &vars, &env), "1$A");
    assert_eq!(expand_value("$Aé", &vars, &env), "");
    assert_eq!(expand_value("no refs", &vars, &env), "no refs");
    assert_eq!(expand_value("${}", &vars, &env), "");
}

#[test]
fn vars_take_precedence_over_env() {
    let vars = env_of(&[("N", "file")]);
    let env = env_of(&[("N", "env")]);
    assert_eq!(zenv::lookup(&"N".to_string(), &vars, &env), "file");
    assert_eq!(zenv::lookup(&"M".to_string(), &vars, &env), "");
}

#[test]
fn var_map_insert_and_entries() {
    let mut m = VarMap::new();
    assert_eq!(m.len(), 0);
    m.insert("A".to_string(), "1".to_string());
    m.insert("B".to_string(), "2".to_string());
    m.insert("A".to_string(), "3".to_string());
    assert_eq!(m.len(), 2);
    assert_eq!(value(&m, "A"), Some("3".to_string()));
    assert_eq!(value(&m, "C"), None);
    let mut es = m.entries().clone();
    es.sort();
    assert_eq!(es, vec![("A".to_string(), "3".to_string()), ("B".to_string(), "2".to_string())]);
}

#[test]
fn ignorable_lines_leave_one_entry() {
    let m = Lines::from("\n  # K=V\n   \nBASIC=basic\nnoequals\n  =x\n").to_hash_map();
    assert_eq!(value(&m, "BASIC"), Some("basic".to_string()));
    assert_eq!(value(&m, "K"), None);
    assert_eq!(m.len(), 1);
}

#[test]
fn unquoted_line_before_others() {
    let m = Lines::from(" K = a\"b \nX=1\n# K=z").to_hash_map();
    assert_eq!(value(&m, "K"), Some("a\"b".to_string()));
    assert_eq!(value(&m, "X"), Some("1".to_string()));
}
