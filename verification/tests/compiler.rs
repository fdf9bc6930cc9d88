use brainheck::ast::Ast;
use brainheck::ast::Ir;
use brainheck::coalesce::coalesce;
use brainheck::emit::compile;
use brainheck::interp::interpret;
use brainheck::parser::parse;

fn run(src: &[u8], input: &[u8], fuel: u64) -> Option<Vec<u8>> {
    let ast = parse(src);
    let ops = coalesce(&ast);
    interpret(&ops, &input.to_vec(), fuel)
}

#[test]
fn parse_maps_each_symbol_to_its_leaf() {
    let ast = parse(b"+><-.,");
    assert_eq!(
        ast,
        vec![
            Ast::IncData,
            Ast::IncPtr,
            Ast::DecPtr,
            Ast::DecData,
            Ast::Output,
            Ast::Input,
        ]
    );
}

#[test]
fn parse_skips_unrecognized_characters() {
    let ast = parse(b"a+ b- c\n#!");
    assert_eq!(ast, vec![Ast::IncData, Ast::DecData]);
}

#[test]
fn parse_builds_nested_loops() {
    let ast = parse(b"+[>[-]<]");
    assert_eq!(
        ast,
        vec![
            Ast::IncData,
            Ast::Loop {
                insts: vec![
                    Ast::IncPtr,
                    Ast::Loop { insts: vec![Ast::DecData] },
                    Ast::DecPtr,
                ],
            },
        ]
    );
}

#[test]
fn lone_close_bracket_is_dropped() {
    assert_eq!(parse(b"]"), vec![]);
    assert_eq!(parse(b"]+."), vec![Ast::IncData, Ast::Output]);
}

#[test]
fn unmatched_open_bracket_swallows_the_rest() {
    let ast = parse(b"[+");
    assert_eq!(ast, vec![Ast::Loop { insts: vec![Ast::IncData] }]);
}

#[test]
fn unmatched_open_bracket_may_hold_matched_pairs() {
    let ast = parse(b"[+[-]");
    assert_eq!(
        ast,
        vec![Ast::Loop {
            insts: vec![Ast::IncData, Ast::Loop { insts: vec![Ast::DecData] }],
        }]
    );
}

#[test]
fn unmatched_open_bracket_still_compiles() {
    let obj = compile(&parse(b"[+")).0;
    assert!(obj.is_some());
    assert!(!obj.unwrap().is_empty());
}

#[test]
fn coalesce_merges_a_run_into_one_weighted_op() {
    let ops = coalesce(&parse(b"+++++"));
    assert_eq!(ops, vec![Ir::AddData(5)]);
    let ops = coalesce(&parse(b"----"));
    assert_eq!(ops, vec![Ir::SubData(4)]);
    let ops = coalesce(&parse(b">>><<"));
    assert_eq!(ops, vec![Ir::AddPtr(3), Ir::SubPtr(2)]);
}

#[test]
fn coalesce_does_not_merge_across_kinds_or_io() {
    let ops = coalesce(&parse(b"++--..,,"));
    assert_eq!(
        ops,
        vec![
            Ir::AddData(2),
            Ir::SubData(2),
            Ir::Output,
            Ir::Output,
            Ir::Input,
            Ir::Input,
        ]
    );
}

#[test]
fn coalesce_reduces_data_runs_modulo_256() {
    let src: Vec<u8> = std::iter::repeat(b'+').take(300).collect();
    let ops = coalesce(&parse(&src));
    assert_eq!(ops, vec![Ir::AddData(44)]);
}

#[test]
fn data_run_equals_single_steps_under_wraparound() {
    let mut src: Vec<u8> = std::iter::repeat(b'+').take(300).collect();
    src.push(b'.');
    assert_eq!(run(&src, b"", 10).unwrap(), vec![44]);
}

#[test]
fn pointer_run_equals_single_steps() {
    assert_eq!(run(b"+>>><<<.", b"", 10).unwrap(), vec![1]);
}

#[test]
fn pointer_moves_wrap_at_pointer_width() {
    assert_eq!(run(b"<>+.", b"", 10).unwrap(), vec![1]);
    assert!(run(b"<.", b"", 10).is_none());
}

#[test]
fn grouping_does_not_change_results() {
    // the same 300 increments, one at a time and as one weighted operation
    let mut singles: Vec<Ir> = Vec::new();
    for _ in 0..300 {
        singles.push(Ir::AddData(1));
    }
    singles.push(Ir::Output);
    let src: Vec<u8> = std::iter::repeat(b'+')
        .take(300)
        .chain(std::iter::once(b'.'))
        .collect();
    let merged = coalesce(&parse(&src));
    assert_eq!(merged, vec![Ir::AddData(44), Ir::Output]);
    assert_eq!(
        interpret(&singles, &Vec::new(), 10),
        interpret(&merged, &Vec::new(), 10)
    );
}

#[test]
fn sixty_five_increments_then_output_print_a() {
    let mut src: Vec<u8> = std::iter::repeat(b'+').take(65).collect();
    src.push(b'.');
    assert_eq!(run(&src, b"", 10).unwrap(), b"A".to_vec());
}

#[test]
fn hello_world_prints_exactly() {
    let src = b"++++++++[>++++[>++>+++>+++>+<<<<-]>+>+>->>+[<]<-]>>.>---.+++++++..+++.>>.<-.<.+++.------.--------.>>+.>++.";
    assert_eq!(run(src, b"", 100000).unwrap(), b"Hello World!\n".to_vec());
}

#[test]
fn hello_world_compiles_to_an_object() {
    let obj = compile(&parse(
        b"++++++++[>++++[>++>+++>+++>+<<<<-]>+>+>->>+[<]<-]>>.>---.+++++++..+++.>>.<-.<.+++.------.--------.>>+.>++.",
    ))
    .0;
    assert!(obj.is_some());
    assert!(!obj.unwrap().is_empty());
}

#[test]
fn empty_program_compiles_to_an_object() {
    let obj = compile(&parse(b"")).0;
    assert!(obj.is_some());
    assert!(!obj.unwrap().is_empty());
}

#[test]
fn countdown_loop_runs_exactly_cell_value_iterations() {
    // four iterations fit in a budget of four, not in three
    assert_eq!(run(b"++++[-].", b"", 4).unwrap(), vec![0]);
    assert!(run(b"++++[-].", b"", 3).is_none());
}

#[test]
fn countdown_loop_on_zero_has_no_side_effects() {
    assert_eq!(run(b"[-].", b"", 0).unwrap(), vec![0]);
}

#[test]
fn input_is_stored_at_the_cursor() {
    assert_eq!(run(b",+.", b"A", 10).unwrap(), b"B".to_vec());
}

#[test]
fn input_past_end_of_stream_has_no_result() {
    assert!(run(b",", b"", 10).is_none());
}
