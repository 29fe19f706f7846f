use golomb::solver::GolombSolver;
use golomb::solver::SolverConfig;
use golomb::solver::generate_option_string;

fn config(marks: usize) -> SolverConfig {
    SolverConfig { marks, verbose: false, multi_processing: false, best_length: false }
}

fn all_distances_distinct(positions: &[usize]) -> bool {
    let mut seen = Vec::new();
    for i in 0..positions.len() {
        for j in i + 1..positions.len() {
            let d = positions[j] - positions[i];
            if seen.contains(&d) {
                return false;
            }
            seen.push(d);
        }
    }
    true
}

#[test]
fn zero_marks_trivial() {
    let result = GolombSolver::new(config(0)).solve();
    let ruler = result.ruler.unwrap();
    assert_eq!(ruler.positions().as_slice(), &[0]);
    assert_eq!(result.optimal, Some(true));
    assert_eq!(result.states_examined, 0);
}

#[test]
fn one_mark_trivial() {
    let result = GolombSolver::new(config(1)).solve();
    let ruler = result.ruler.unwrap();
    assert_eq!(ruler.positions().as_slice(), &[0]);
    assert_eq!(result.optimal, Some(true));
    assert_eq!(result.states_examined, 0);
}

#[test]
fn two_marks_trivial() {
    let result = GolombSolver::new(config(2)).solve();
    let ruler = result.ruler.unwrap();
    assert_eq!(ruler.positions().as_slice(), &[0, 1]);
    assert_eq!(result.optimal, Some(true));
    assert_eq!(result.states_examined, 0);
}

#[test]
fn three_marks_sequential() {
    let result = GolombSolver::new(config(3)).solve();
    let ruler = result.ruler.unwrap();
    assert_eq!(ruler.length(), 3);
    assert_eq!(result.optimal, Some(true));
}

#[test]
fn four_marks_valid_and_optimal() {
    let result = GolombSolver::new(config(4)).solve();
    let ruler = result.ruler.unwrap();
    assert_eq!(ruler.length(), 6);
    assert_eq!(result.optimal, Some(true));
    assert_eq!(ruler.positions()[0], 0);
    let positions = ruler.positions();
    for i in 1..positions.len() {
        assert!(positions[i - 1] < positions[i]);
    }
    assert!(all_distances_distinct(positions.as_slice()));
    assert!(ruler.is_valid());
}

#[test]
fn five_marks_optimal_length() {
    let result = GolombSolver::new(config(5)).solve();
    let ruler = result.ruler.unwrap();
    assert_eq!(ruler.length(), 11);
    assert_eq!(result.optimal, Some(true));
    assert!(ruler.is_valid());
}

#[test]
fn sequential_mode_is_deterministic() {
    let first = GolombSolver::new(config(5)).solve();
    let second = GolombSolver::new(config(5)).solve();
    let len1 = first.ruler.unwrap().length();
    let len2 = second.ruler.unwrap().length();
    assert_eq!(len1, len2);
    assert_eq!(first.states_examined, second.states_examined);
}

#[test]
fn parallel_agrees_with_sequential() {
    for marks in 3..=5 {
        let seq_result = GolombSolver::new(config(marks)).solve();
        let par_config = SolverConfig {
            marks,
            verbose: false,
            multi_processing: true,
            best_length: false,
        };
        let par_result = GolombSolver::new(par_config).solve();
        let seq_ruler = seq_result.ruler.unwrap();
        let par_ruler = par_result.ruler.unwrap();
        assert_eq!(seq_ruler.length(), par_ruler.length());
        assert_eq!(seq_result.optimal, par_result.optimal);
        assert!(par_ruler.is_valid());
    }
}

#[test]
fn best_length_nine_marks_returns_canonical() {
    let cfg = SolverConfig { marks: 9, verbose: false, multi_processing: false, best_length: true };
    let result = GolombSolver::new(cfg).solve();
    let ruler = result.ruler.unwrap();
    assert_eq!(ruler.length(), 44);
    assert_eq!(result.optimal, Some(true));
    assert_eq!(ruler.positions().as_slice(), &[0, 1, 5, 12, 25, 27, 35, 41, 44]);
}

#[test]
fn best_length_five_marks() {
    let cfg = SolverConfig { marks: 5, verbose: false, multi_processing: false, best_length: true };
    let result = GolombSolver::new(cfg).solve();
    let ruler = result.ruler.unwrap();
    assert_eq!(ruler.length(), 11);
    assert_eq!(result.optimal, Some(true));
    assert_eq!(ruler.positions().as_slice(), &[0, 1, 4, 9, 11]);
}

#[test]
fn parallel_best_length_five_marks() {
    let cfg = SolverConfig { marks: 5, verbose: false, multi_processing: true, best_length: true };
    let result = GolombSolver::new(cfg).solve();
    let ruler = result.ruler.unwrap();
    assert_eq!(ruler.length(), 11);
    assert_eq!(result.optimal, Some(true));
    assert_eq!(ruler.positions().as_slice(), &[0, 1, 4, 9, 11]);
}

#[test]
fn states_examined_counts_work() {
    let result = GolombSolver::new(config(4)).solve();
    assert!(result.states_examined > 0);
}

#[test]
fn option_string_tags() {
    assert_eq!(generate_option_string(false, false, false), "std");
    assert_eq!(generate_option_string(true, false, false), "mp");
    assert_eq!(generate_option_string(false, true, false), "b");
    assert_eq!(generate_option_string(false, false, true), "v");
    assert_eq!(generate_option_string(true, true, false), "mp_b");
    assert_eq!(generate_option_string(true, false, true), "mp_v");
    assert_eq!(generate_option_string(false, true, true), "b_v");
    assert_eq!(generate_option_string(true, true, true), "mp_b_v");
}
