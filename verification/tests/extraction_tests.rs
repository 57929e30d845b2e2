use gradle_profiler::models::ProfileError;
use gradle_profiler::parser::ProfileParser;

fn row(path: &str, duration: &str, result: &str) -> String {
    format!(
        "<tr><td class=\"indentPath\">{}</td>\n<td class=\"numeric\">{}</td>\n<td>{}</td></tr>\n",
        path, duration, result
    )
}

fn report(total: &str, rows: &str) -> String {
    format!(
        "<html><body><table><tr><td>Total Build Time</td>\n<td class=\"numeric\">{}</td></tr></table>\n<h2>Task Execution</h2>\n<table>{}</table></body></html>",
        total, rows
    )
}

#[test]
fn extracts_total_time() {
    let html = report("2m0s", &row(":app:compileDebugKotlin", "35.0s", ""));
    assert_eq!(ProfileParser::extract_total_time(&html), Ok(120000));
}

#[test]
fn missing_total_label_is_not_found() {
    let html = "<html><h2>Task Execution</h2></html>";
    assert_eq!(
        ProfileParser::extract_total_time(html),
        Err(ProfileError::NotFound)
    );
}

#[test]
fn malformed_total_cell_is_parse_failure() {
    let html = "<html><td>Total Build Time</td><td>2m0s</td></html>";
    assert_eq!(
        ProfileParser::extract_total_time(html),
        Err(ProfileError::ParseFailure)
    );
    let html2 = "<html><td>Total Build Time</td><td class=\"numeric\"></td></html>";
    assert_eq!(
        ProfileParser::extract_total_time(html2),
        Err(ProfileError::ParseFailure)
    );
}

#[test]
fn missing_task_section_is_not_found() {
    // the section marker is absent: the failure kind is NotFound and no other
    let html = "<html><td>Total Build Time</td>\n<td class=\"numeric\">2m0s</td><table><td class=\"indentPath\">:app:a</td><td class=\"numeric\">1.0s</td><td></td></table></html>";
    assert_eq!(
        ProfileParser::extract_tasks(html),
        Err(ProfileError::NotFound)
    );
    assert!(ProfileParser::parse_html(html) == Err(ProfileError::NotFound));
}

#[test]
fn subtotal_rows_only_is_no_matches() {
    // rows whose path has fewer than two separators are project subtotals
    let rows = format!("{}{}", row(":app", "35.0s", ""), row("app", "5.0s", ""));
    let html = report("2m0s", &rows);
    assert_eq!(
        ProfileParser::extract_tasks(&html),
        Err(ProfileError::NoMatches)
    );
    assert!(ProfileParser::parse_html(&html) == Err(ProfileError::NoMatches));
}

#[test]
fn zero_and_total_rows_are_discarded() {
    let rows = format!(
        "{}{}{}",
        row(":app:zeroTask", "0s", ""),
        row(":app:aggregate", "12.0s (total)", ""),
        row(":app:real", "1.0s", "")
    );
    let html = report("1m0s", &rows);
    let projects = ProfileParser::extract_tasks(&html).unwrap();
    assert_eq!(projects.len(), 1);
    assert_eq!(projects[0].tasks.len(), 1);
    assert_eq!(projects[0].tasks[0].path, ":app:real");
}

#[test]
fn empty_result_defaults_to_success() {
    let html = report(
        "1m0s",
        &format!(
            "{}{}",
            row(":app:one", "1.0s", ""),
            row(":app:two", "2.0s", "FROM-CACHE")
        ),
    );
    let projects = ProfileParser::extract_tasks(&html).unwrap();
    assert_eq!(projects[0].tasks[0].result, "SUCCESS");
    assert_eq!(projects[0].tasks[1].result, "FROM-CACHE");
}

#[test]
fn fields_are_trimmed() {
    let html = report("1m0s", &row("  :app:padded  ", " 1.0s ", "  UP-TO-DATE "));
    let projects = ProfileParser::extract_tasks(&html).unwrap();
    assert_eq!(projects[0].tasks[0].path, ":app:padded");
    assert_eq!(projects[0].tasks[0].duration, 1000);
    assert_eq!(projects[0].tasks[0].result, "UP-TO-DATE");
}

#[test]
fn projects_are_grouped_and_sorted() {
    let rows = format!(
        "{}{}{}{}",
        row(":lib:one", "1.0s", ""),
        row(":app:two", "2.0s", ""),
        row(":lib:three", "3.0s", ""),
        row(":core:four", "4.0s", "")
    );
    let html = report("1m0s", &rows);
    let projects = ProfileParser::extract_tasks(&html).unwrap();
    let names: Vec<&str> = projects.iter().map(|p| p.path.as_str()).collect();
    assert_eq!(names, vec![":app", ":core", ":lib"]);
    // discovery order is kept inside each project
    let lib_tasks: Vec<&str> = projects[2].tasks.iter().map(|t| t.path.as_str()).collect();
    assert_eq!(lib_tasks, vec![":lib:one", ":lib:three"]);
}

#[test]
fn plain_cells_also_match_rows() {
    // a row may open with a bare cell tag, without the indent class
    let html = report(
        "1m0s",
        "<td>:app:bare</td><td class=\"numeric\">1.0s</td><td></td>",
    );
    let projects = ProfileParser::extract_tasks(&html).unwrap();
    assert_eq!(projects[0].tasks[0].path, ":app:bare");
}

#[test]
fn paths_with_one_separator_are_subtotals() {
    // a path needs two separators to be a task of its own
    let rows = format!("{}{}", row(":app", "9.0s", ""), row(":app:compileDebug", "2.0s", ""));
    let html = report("1m0s", &rows);
    let projects = ProfileParser::extract_tasks(&html).unwrap();
    assert_eq!(projects.len(), 1);
    assert_eq!(projects[0].tasks.len(), 1);
    assert!(projects[0]
        .tasks
        .iter()
        .all(|t| t.path.matches(':').count() >= 2));
}

#[test]
fn project_order_is_lexicographic() {
    // a shorter identifier precedes its own extensions
    let rows = format!(
        "{}{}{}",
        row(":ab:one", "1.0s", ""),
        row(":a:two", "2.0s", ""),
        row(":abc:three", "3.0s", "")
    );
    let html = report("1m0s", &rows);
    let projects = ProfileParser::extract_tasks(&html).unwrap();
    let names: Vec<&str> = projects.iter().map(|p| p.path.as_str()).collect();
    assert_eq!(names, vec![":a", ":ab", ":abc"]);
}

#[test]
fn error_messages_describe_the_failure() {
    assert!(ProfileError::NotFound.message().contains("absent"));
    assert!(ProfileError::NoMatches.message().contains("no task rows"));
    assert!(ProfileError::ParseFailure.message().contains("missing"));
}
