use dorg::calendar::ResolvedTimestamp;
use dorg::planner::{get_parent_dir, plan_destination, DestinationPlan};
use dorg::Mode;

fn plan(directory: &str, path: &str) -> DestinationPlan {
    DestinationPlan { target_directory: directory.to_string(), target_path: path.to_string() }
}

const FIFTH_OF_NOVEMBER: ResolvedTimestamp = ResolvedTimestamp { year: 2023, month: 11, day: 5 };

#[test]
fn by_month_the_target_is_year_and_month() {
    assert_eq!(
        plan_destination("photos", FIFTH_OF_NOVEMBER, Mode::Month, "a.jpg"),
        plan("photos/2023/11", "photos/2023/11/a.jpg")
    );
}

#[test]
fn by_day_the_target_is_year_month_and_day() {
    assert_eq!(
        plan_destination("photos", FIFTH_OF_NOVEMBER, Mode::Day, "a.jpg"),
        plan("photos/2023/11/5", "photos/2023/11/5/a.jpg")
    );
}

#[test]
fn month_and_day_are_not_padded() {
    let date = ResolvedTimestamp { year: 2024, month: 3, day: 7 };
    assert_eq!(
        plan_destination("docs", date, Mode::Day, "x"),
        plan("docs/2024/3/7", "docs/2024/3/7/x")
    );
    assert_eq!(plan_destination("docs", date, Mode::Month, "x"), plan("docs/2024/3", "docs/2024/3/x"));
    let date = ResolvedTimestamp { year: 1999, month: 12, day: 31 };
    assert_eq!(
        plan_destination("docs", date, Mode::Day, "x"),
        plan("docs/1999/12/31", "docs/1999/12/31/x")
    );
}

#[test]
fn years_of_any_size_and_sign_are_written_out() {
    let date = ResolvedTimestamp { year: 5, month: 1, day: 1 };
    assert_eq!(plan_destination("a", date, Mode::Month, "f"), plan("a/5/1", "a/5/1/f"));
    let date = ResolvedTimestamp { year: 0, month: 12, day: 31 };
    assert_eq!(plan_destination("a", date, Mode::Day, "f"), plan("a/0/12/31", "a/0/12/31/f"));
    let date = ResolvedTimestamp { year: -44, month: 3, day: 15 };
    assert_eq!(plan_destination("a", date, Mode::Day, "f"), plan("a/-44/3/15", "a/-44/3/15/f"));
    let date = ResolvedTimestamp { year: 262142, month: 12, day: 31 };
    assert_eq!(plan_destination("a", date, Mode::Month, "f"), plan("a/262142/12", "a/262142/12/f"));
}

#[test]
fn an_anchor_that_ends_in_a_separator_gets_no_second_one() {
    assert_eq!(
        plan_destination("/", FIFTH_OF_NOVEMBER, Mode::Month, "a"),
        plan("/2023/11", "/2023/11/a")
    );
    assert_eq!(
        plan_destination("/home/u/", FIFTH_OF_NOVEMBER, Mode::Month, "a"),
        plan("/home/u/2023/11", "/home/u/2023/11/a")
    );
    assert_eq!(
        plan_destination("", FIFTH_OF_NOVEMBER, Mode::Month, "a"),
        plan("2023/11", "2023/11/a")
    );
}

#[test]
fn the_file_name_is_kept_as_it_is() {
    for name in ["a.txt", "no extension", ".hidden", "2023", "été.jpg", "a.b.c"] {
        let planned = plan_destination("photos", FIFTH_OF_NOVEMBER, Mode::Day, name);
        assert_eq!(planned.target_directory, "photos/2023/11/5");
        assert_eq!(planned.target_path, format!("photos/2023/11/5/{name}"));
        let last = std::path::Path::new(&planned.target_path).file_name().unwrap();
        assert_eq!(last.to_str().unwrap(), name);
    }
}

#[test]
fn the_anchor_is_the_first_name_of_the_path() {
    let none: Option<String> = None;
    let cwd = Some("/work".to_string());
    for fallback in [&none, &cwd] {
        assert_eq!(get_parent_dir("photos/a.jpg", fallback), Some("photos".to_string()));
        assert_eq!(get_parent_dir("photos/2022/6/a.jpg", fallback), Some("photos".to_string()));
        assert_eq!(get_parent_dir("/home/u/a.jpg", fallback), Some("home".to_string()));
        assert_eq!(get_parent_dir("./photos/a.jpg", fallback), Some("photos".to_string()));
        assert_eq!(get_parent_dir("../a.jpg", fallback), Some("a.jpg".to_string()));
    }
}

#[test]
fn a_path_without_a_name_takes_the_fallback_anchor() {
    let cwd = Some("/work".to_string());
    for path in ["", "/", ".", "..", "./..", "//"] {
        assert_eq!(get_parent_dir(path, &cwd), Some("/work".to_string()));
        assert_eq!(get_parent_dir(path, &None), None);
    }
}
