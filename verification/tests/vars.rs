use cerium::compiler::assembly::{Annotation, Instruction, Operand, Register};
use cerium::compiler::vars::{var_op, Vars};
use cerium::parser::ast::Qualifier;
use cerium::parser::cerium_type::CeriumType;

fn name(s: &str) -> Qualifier {
    Qualifier::from_str(s.to_string())
}

fn texts(code: &[Instruction]) -> Vec<String> {
    code.iter().map(|i| i.to_string()).collect()
}

#[test]
fn slots_live_in_registers_then_memory() {
    assert_eq!(var_op(0).to_string(), "r1");
    assert_eq!(var_op(6).to_string(), "r7");
    assert_eq!(var_op(7).to_string(), "[0]");
    assert_eq!(var_op(19).to_string(), "[12]");
}

#[test]
fn labels_count_up() {
    let globals = Vec::new();
    let mut vars = Vars::new(&globals, Vec::new());
    assert_eq!(vars.label(), ".L0");
    assert_eq!(vars.label(), ".L1");
    assert_eq!(vars.label(), ".L2");
}

#[test]
fn find_prefers_the_latest_slot() {
    let globals = vec![(name("g"), CeriumType::Bool)];
    let params = vec![(name("p"), CeriumType::I16), (name("q"), CeriumType::U16)];
    let mut vars = Vars::new(&globals, params);
    assert_eq!(vars.push(Some(name("x")), CeriumType::U16).to_string(), "r1");
    assert_eq!(vars.push(Some(name("x")), CeriumType::Bool).to_string(), "r2");
    let (op, t) = vars.find(&name("x")).expect("x is known");
    assert_eq!(op.to_string(), "r2");
    assert!(matches!(t, CeriumType::Bool));
    vars.pop();
    let (op, t) = vars.find(&name("x")).expect("x is known");
    assert_eq!(op.to_string(), "r1");
    assert!(matches!(t, CeriumType::U16));
}

#[test]
fn find_parameters_and_globals() {
    let globals = vec![(Qualifier::from(vec!["m".to_string(), "g".to_string()]), CeriumType::Bool)];
    let params = vec![(name("p"), CeriumType::I16), (name("q"), CeriumType::U16)];
    let vars = Vars::new(&globals, params);
    let (op, t) = vars.find(&name("p")).unwrap();
    assert_eq!(op.to_string(), "[-4]");
    assert!(matches!(t, CeriumType::I16));
    let (op, _) = vars.find(&name("q")).unwrap();
    assert_eq!(op.to_string(), "[-3]");
    let (op, t) = vars.find(&Qualifier::from(vec!["m".to_string(), "g".to_string()])).unwrap();
    assert_eq!(op.to_string(), "m::g");
    assert!(matches!(t, CeriumType::Bool));
    assert!(vars.find(&name("nothing")).is_none());
}

#[test]
fn scopes_release_their_slots() {
    let globals = Vec::new();
    let mut vars = Vars::new(&globals, Vec::new());
    vars.push(Some(name("a")), CeriumType::U16);
    vars.begin_scope();
    vars.push(Some(name("b")), CeriumType::U16);
    vars.push(None, CeriumType::U16);
    assert!(vars.find(&name("b")).is_some());
    vars.end_scope();
    assert!(vars.find(&name("b")).is_none());
    assert!(vars.find(&name("a")).is_some());
    // the next slot is the second one again
    assert_eq!(vars.push(None, CeriumType::Any).to_string(), "r2");
    // ending a scope when none is open changes nothing
    vars.end_scope();
    assert!(vars.find(&name("a")).is_some());
}

#[test]
fn alter_top_type_changes_the_last_slot() {
    let globals = Vec::new();
    let mut vars = Vars::new(&globals, Vec::new());
    vars.alter_top_type(CeriumType::Bool);
    vars.push(Some(name("a")), CeriumType::Any);
    vars.alter_top_type(CeriumType::F16);
    let (_, t) = vars.find(&name("a")).unwrap();
    assert!(matches!(t, CeriumType::F16));
}

#[test]
fn affixes_without_slots() {
    let globals = Vec::new();
    let mut vars = Vars::new(&globals, Vec::new());
    let (prologue, epilogue) = vars.collect_affixes();
    assert!(prologue.is_empty());
    assert!(epilogue.is_empty());
}

#[test]
fn affixes_with_few_slots() {
    let globals = Vec::new();
    let mut vars = Vars::new(&globals, Vec::new());
    vars.push(None, CeriumType::U16);
    vars.push(None, CeriumType::U16);
    vars.pop();
    let (prologue, epilogue) = vars.collect_affixes();
    assert_eq!(
        texts(&prologue),
        vec!["    push r1", "    push r2", "    ; non-negative stack offset 2"]
    );
    assert_eq!(
        texts(&epilogue),
        vec!["    ; non-negative stack offset -2", "    pop r1", "    pop r2"]
    );
}

#[test]
fn affixes_with_many_slots() {
    let globals = Vec::new();
    let mut vars = Vars::new(&globals, Vec::new());
    for _ in 0..9 {
        vars.push(None, CeriumType::U16);
    }
    let (prologue, epilogue) = vars.collect_affixes();
    assert_eq!(prologue.len(), 9);
    assert!(matches!(&prologue[6], Instruction::Push(Operand::Direct(Register::R7))));
    assert_eq!(prologue[7].to_string(), "    add rs 2");
    assert!(matches!(prologue[8], Instruction::Annotation(Annotation::NonNegativeStackOffset(7))));
    assert_eq!(epilogue[1].to_string(), "    sub rs 2");
    assert!(matches!(epilogue[0], Instruction::Annotation(Annotation::NonNegativeStackOffset(-7))));
    assert_eq!(epilogue.len(), 9);
}

#[test]
fn epilogue_undoes_prologue_with_one_slot() {
    let globals = Vec::new();
    let mut vars = Vars::new(&globals, Vec::new());
    vars.push(None, CeriumType::U16);
    let (prologue, epilogue) = vars.collect_affixes();
    assert_eq!(texts(&prologue), vec!["    push r1", "    ; non-negative stack offset 1"]);
    assert_eq!(texts(&epilogue), vec!["    ; non-negative stack offset -1", "    pop r1"]);
}
