use gradle_profiler::analyzer::BuildAnalyzer;
use gradle_profiler::models::BuildData;
use gradle_profiler::models::BuildProfile;
use gradle_profiler::models::Project;
use gradle_profiler::models::Task;
use gradle_profiler::parser::ProfileParser;

fn task(path: &str, duration: u64) -> Task {
    Task {
        path: path.to_string(),
        duration,
        result: "SUCCESS".to_string(),
        task_type: None,
    }
}

fn profile_of(total: u64, projects: Vec<Project>) -> BuildProfile {
    BuildProfile {
        build_profile: BuildData {
            elapsed_total: total,
            projects,
        },
    }
}

#[test]
fn end_to_end_scenario() {
    let html = format!(
        "<html><td>Total Build Time</td>\n<td class=\"numeric\">2m0s</td>\n<h2>Task Execution</h2>\n{}{}{}</html>",
        "<td class=\"indentPath\">:app:compileDebugKotlin</td><td class=\"numeric\">35.0s</td><td></td>",
        "<td class=\"indentPath\">:app:kaptDebugKotlin</td><td class=\"numeric\">30.0s</td><td></td>",
        "<td class=\"indentPath\">:lib:compileDebugKotlin</td><td class=\"numeric\">10.0s</td><td></td>"
    );
    let profile = ProfileParser::parse_html(&html).unwrap();
    assert_eq!(profile.build_profile.elapsed_total, 120000);
    let analysis = BuildAnalyzer::analyze(&profile);

    assert_eq!(analysis.total_time, 120000);
    let ranked: Vec<(&str, u64)> = analysis
        .slowest_tasks
        .iter()
        .map(|t| (t.name.as_str(), t.duration))
        .collect();
    assert_eq!(
        ranked,
        vec![
            (":app:compileDebugKotlin", 35000),
            (":app:kaptDebugKotlin", 30000),
            (":lib:compileDebugKotlin", 10000),
        ]
    );
    // the share of the total is the exact rational of each duration
    let pct: Vec<String> = analysis
        .slowest_tasks
        .iter()
        .map(|t| format!("{:.1}%", t.duration as f64 / analysis.total_time as f64 * 100.0))
        .collect();
    assert_eq!(pct, vec!["29.2%", "25.0%", "8.3%"]);

    let summary: Vec<(&str, u64, usize)> = analysis
        .project_summary
        .iter()
        .map(|p| (p.name.as_str(), p.total_duration, p.task_count))
        .collect();
    assert_eq!(summary, vec![(":app", 65000, 2), (":lib", 10000, 1)]);

    // kapt holds a quarter of the build: the migration tip comes first,
    // the two configuration tips close the list
    assert_eq!(
        analysis.optimization_tips,
        vec![
            "Kapt takes 25.0% of build time. Consider migrating to KSP for ~40% improvement",
            "Enable Gradle parallel execution: org.gradle.parallel=true",
            "Enable configuration cache: org.gradle.configuration-cache=true",
        ]
    );
}

#[test]
fn analysis_is_deterministic() {
    let html = format!(
        "<html><td>Total Build Time</td><td class=\"numeric\">1m30s</td><h2>Task Execution</h2>{}{}</html>",
        "<td>:app:kaptDebugKotlin</td><td class=\"numeric\">40.0s</td><td></td>",
        "<td>:lib:compileKotlin</td><td class=\"numeric\">31.0s</td><td></td>"
    );
    let first = BuildAnalyzer::analyze(&ProfileParser::parse_html(&html).unwrap());
    let second = BuildAnalyzer::analyze(&ProfileParser::parse_html(&html).unwrap());
    assert_eq!(first, second);
}

#[test]
fn ranking_is_cut_to_ten() {
    let tasks: Vec<Task> = (0..15u64)
        .map(|i| task(&format!(":app:t{}", i), 1000 + i))
        .collect();
    let profile = profile_of(
        60000,
        vec![Project {
            path: ":app".to_string(),
            tasks,
        }],
    );
    let analysis = BuildAnalyzer::analyze(&profile);
    assert_eq!(analysis.slowest_tasks.len(), 10);
    for w in analysis.slowest_tasks.windows(2) {
        assert!(w[0].duration >= w[1].duration);
    }
    assert_eq!(analysis.slowest_tasks[0].duration, 1014);
}

#[test]
fn equal_durations_keep_discovery_order() {
    let profile = profile_of(
        10000,
        vec![Project {
            path: ":app".to_string(),
            tasks: vec![task(":app:first", 500), task(":app:second", 500)],
        }],
    );
    let analysis = BuildAnalyzer::analyze(&profile);
    assert_eq!(analysis.slowest_tasks[0].name, ":app:first");
    assert_eq!(analysis.slowest_tasks[1].name, ":app:second");
}

#[test]
fn zero_total_raises_no_category_tip() {
    // a zero total elapsed time is a zero share, never a non-finite one
    let tasks = vec![task(":app:kaptDebugKotlin", 30000)];
    let tips = BuildAnalyzer::generate_tips(&tasks, 0);
    assert_eq!(
        tips,
        vec![
            "Enable Gradle parallel execution: org.gradle.parallel=true",
            "Enable configuration cache: org.gradle.configuration-cache=true",
        ]
    );
}

#[test]
fn kapt_tip_needs_more_than_a_fifth() {
    let tasks = vec![task(":app:kaptDebugKotlin", 20000)];
    let tips = BuildAnalyzer::generate_tips(&tasks, 100000);
    assert_eq!(tips.len(), 2);
    let tips2 = BuildAnalyzer::generate_tips(&tasks, 99000);
    assert_eq!(tips2.len(), 3);
    assert!(tips2[0].starts_with("Kapt takes 20.2% of build time"));
}

#[test]
fn slow_compilation_tip_names_the_module() {
    let tasks = vec![task(":core:compileKotlin", 31000)];
    let tips = BuildAnalyzer::generate_tips(&tasks, 600000);
    assert_eq!(
        tips[0],
        "Module 'core' has slow Kotlin compilation. Consider splitting into smaller modules"
    );
    // at the threshold itself no tip is raised
    let border = vec![task(":core:compileKotlin", 30000)];
    assert_eq!(BuildAnalyzer::generate_tips(&border, 600000).len(), 2);
}

#[test]
fn slow_compilation_fallback_module_name() {
    let tasks = vec![task("compileKotlinJvm", 31000)];
    let tips = BuildAnalyzer::generate_tips(&tasks, 600000);
    assert_eq!(
        tips[0],
        "Module 'unknown' has slow Kotlin compilation. Consider splitting into smaller modules"
    );
}

#[test]
fn project_summaries_keep_extraction_order() {
    let profile = profile_of(
        10000,
        vec![
            Project {
                path: ":app".to_string(),
                tasks: vec![task(":app:a", 100), task(":app:b", 200)],
            },
            Project {
                path: ":lib".to_string(),
                tasks: vec![task(":lib:c", 300)],
            },
        ],
    );
    let analysis = BuildAnalyzer::analyze(&profile);
    assert_eq!(analysis.project_summary.len(), 2);
    assert_eq!(analysis.project_summary[0].name, ":app");
    assert_eq!(analysis.project_summary[0].total_duration, 300);
    assert_eq!(analysis.project_summary[0].task_count, 2);
    assert_eq!(analysis.project_summary[1].name, ":lib");
    assert_eq!(analysis.project_summary[1].total_duration, 300);
    assert_eq!(analysis.project_summary[1].task_count, 1);
}
