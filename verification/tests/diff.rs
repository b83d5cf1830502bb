use deet::diff::{lcs, print_diff, DiffLine};
use deet::grid::Grid;

fn lines(text: &str) -> Vec<String> {
    text.chars().map(|c| c.to_string()).collect()
}

#[test]
fn test_lcs() {
    let mut expected = Grid::new(5, 4);
    expected.set(1, 1, 1).unwrap();
    expected.set(1, 2, 1).unwrap();
    expected.set(1, 3, 1).unwrap();
    expected.set(2, 1, 1).unwrap();
    expected.set(2, 2, 1).unwrap();
    expected.set(2, 3, 2).unwrap();
    expected.set(3, 1, 1).unwrap();
    expected.set(3, 2, 1).unwrap();
    expected.set(3, 3, 2).unwrap();
    expected.set(4, 1, 1).unwrap();
    expected.set(4, 2, 2).unwrap();
    expected.set(4, 3, 2).unwrap();

    println!("Expected:");
    println!("{:?}", expected);
    let result = lcs(
        &"abcd".chars().map(|c| c.to_string()).collect(),
        &"adb".chars().map(|c| c.to_string()).collect(),
    );
    println!("Got:");
    println!("{:?}", result);
    assert_eq!(result.size(), expected.size());
    for row in 0..expected.size().0 {
        for col in 0..expected.size().1 {
            assert_eq!(result.get(row, col), expected.get(row, col));
        }
    }
}

#[test]
fn lcs_of_empty_texts_is_one_zero_cell() {
    let dp = lcs(&Vec::new(), &Vec::new());
    assert_eq!(dp.size(), (1, 1));
    assert_eq!(dp.get(0, 0), Some(0));
    assert_eq!(dp.get(0, 1), None);
    assert_eq!(dp.get(1, 0), None);
}

#[test]
fn diff_keeps_common_lines_and_marks_the_rest() {
    let x = lines("abcd");
    let y = lines("adb");
    let dp = lcs(&x, &y);
    let out = print_diff(&dp, &x, &y, x.len(), y.len());
    let shown: Vec<String> = out
        .iter()
        .map(|l| match l {
            DiffLine::Same(s) => format!(" {}", s),
            DiffLine::Added(s) => format!("> {}", s),
            DiffLine::Removed(s) => format!("< {}", s),
        })
        .collect();
    assert_eq!(shown, vec![" a", "< b", "< c", " d", "> b"]);
}

#[test]
fn diff_of_nothing_is_empty() {
    let x: Vec<String> = Vec::new();
    let y: Vec<String> = Vec::new();
    let dp = lcs(&x, &y);
    assert!(print_diff(&dp, &x, &y, 0, 0).is_empty());
}

#[test]
fn grid_set_out_of_bounds_fails_and_changes_nothing() {
    let mut grid = Grid::new(2, 3);
    assert!(grid.set(2, 0, 7).is_err());
    assert!(grid.set(0, 3, 7).is_err());
    assert!(grid.set(1, 2, 7).is_ok());
    assert_eq!(grid.get(1, 2), Some(7));
    assert_eq!(grid.get(0, 2), Some(0));
    grid.clear();
    assert_eq!(grid.get(1, 2), Some(0));
}

#[test]
fn diff_reads_as_either_text_and_keeps_a_longest_common_subsequence() {
    for (a, b) in [("abcd", "adb"), ("", "xyz"), ("xyz", ""), ("kitten", "sitting"), ("aaa", "aa")] {
        let x = lines(a);
        let y = lines(b);
        let dp = lcs(&x, &y);
        let out = print_diff(&dp, &x, &y, x.len(), y.len());
        let mut first = String::new();
        let mut second = String::new();
        let mut common = 0;
        for line in &out {
            match line {
                DiffLine::Same(s) => {
                    first.push_str(s);
                    second.push_str(s);
                    common += 1;
                }
                DiffLine::Added(s) => second.push_str(s),
                DiffLine::Removed(s) => first.push_str(s),
            }
        }
        assert_eq!(first, a);
        assert_eq!(second, b);
        assert_eq!(Some(common), dp.get(x.len(), y.len()));
    }
    let dp = lcs(&lines("kitten"), &lines("sitting"));
    assert_eq!(dp.get(6, 7), Some(4));
}
