use dumpx::cli::{
    args_from_prompts, build_files, infer_positional_items, load_templates, merge_or_default,
    parse_output_mode, plan_run, prompt_value, split_prompt_values, validate_generation_limits,
    Args, Plan, RunPlan, DEFAULT_MAX_FILES,
};
use dumpx::error::Error;
use dumpx::output::{
    file_report_line, reports_each_file, summary_line, ErrorReport, GeneratedFile, OutputMode,
    RunReport,
};

fn s(v: &[&str]) -> Vec<String> {
    v.iter().map(|x| x.to_string()).collect()
}

fn base() -> Args {
    Args {
        out_dir: ".".to_string(),
        sizes: None,
        formats: None,
        tags: Vec::new(),
        prefix: "sample".to_string(),
        name: None,
        number_of_files: 1,
        template: None,
        template_file: None,
        template_header: None,
        force: false,
        allow_large: false,
        max_files: DEFAULT_MAX_FILES,
        output: OutputMode::Text,
        quiet: false,
        json: false,
        agent: false,
        list_formats: false,
        items: Vec::new(),
    }
}

fn json_args(items: &[&str]) -> Args {
    let mut a = base();
    a.json = true;
    a.items = s(items);
    a
}

fn plan(a: &Args) -> Plan {
    match plan_run(a, None) {
        Ok(RunPlan::Generate(p)) => p,
        Ok(RunPlan::ListFormats) => panic!("listed formats"),
        Err(e) => panic!("refused: {}", e.message()),
    }
}

fn refusal(a: &Args) -> String {
    match plan_run(a, None) {
        Err(e) => e.message(),
        Ok(_) => panic!("run was not refused"),
    }
}

#[test]
fn lists_supported_formats() {
    let mut a = base();
    a.list_formats = true;
    assert!(matches!(plan_run(&a, None), Ok(RunPlan::ListFormats)));
}

#[test]
fn json_report_includes_planned_file_count() {
    let p = plan(&json_args(&["csv,json", "1KiB,2KiB", "/tmp/out"]));
    assert_eq!(p.planned_count, 4);
    assert_eq!(p.files.len(), 4);
    assert_eq!(p.out_dir, "/tmp/out");
}

#[test]
fn number_of_files_multiplies_format_size_pairs() {
    let mut a = json_args(&["csv,json", "1KiB,2KiB", "/tmp/out"]);
    a.number_of_files = 2;
    let p = plan(&a);
    assert_eq!(p.planned_count, 8);
    assert_eq!(p.files.len(), 8);
    let names: Vec<&str> = p.files.iter().map(|f| f.file_name.as_str()).collect();
    assert_eq!(
        names,
        vec![
            "sample_1KiB_1.csv",
            "sample_1KiB_2.csv",
            "sample_2KiB_1.csv",
            "sample_2KiB_2.csv",
            "sample_1KiB_1.json",
            "sample_1KiB_2.json",
            "sample_2KiB_1.json",
            "sample_2KiB_2.json",
        ]
    );
}

#[test]
fn number_of_files_must_be_greater_than_zero() {
    let mut a = json_args(&["csv", "1KiB"]);
    a.number_of_files = 0;
    assert!(refusal(&a).contains("--number-of-files must be greater than zero"));
}

#[test]
fn number_of_files_is_not_capped_by_run_file_count() {
    let mut a = json_args(&["txt", "1B", "/tmp/out"]);
    a.number_of_files = 101;
    let p = plan(&a);
    assert_eq!(p.planned_count, 101);
    assert_eq!(p.files.len(), 101);
    assert_eq!(p.files[100].file_name, "sample_1B_101.txt");
}

#[test]
fn positional_format_then_size_is_supported() {
    let mut a = json_args(&["csv", "1KiB"]);
    a.out_dir = "/tmp/out".to_string();
    let p = plan(&a);
    assert_eq!(p.files.len(), 1);
    assert_eq!(p.files[0].format, "csv");
    assert_eq!(p.files[0].size, 1024);
}

#[test]
fn positional_size_then_format_is_supported() {
    let p = plan(&json_args(&["1KiB", "csv"]));
    assert_eq!(p.files.len(), 1);
    assert_eq!(p.files[0].format, "csv");
    assert_eq!(p.files[0].size, 1024);
}

#[test]
fn positional_comma_separated_formats_are_supported() {
    let p = plan(&json_args(&["csv,json", "1KiB"]));
    assert_eq!(p.files.len(), 2);
    assert_eq!(p.files[0].format, "csv");
    assert_eq!(p.files[1].format, "json");
    assert_eq!(p.files[0].size, 1024);
}

#[test]
fn positional_comma_separated_formats_and_sizes_are_supported() {
    let p = plan(&json_args(&["csv,json", "1KiB,2KiB"]));
    assert_eq!(p.files.len(), 4);
    assert_eq!(p.files[0].format, "csv");
    assert_eq!(p.files[0].size, 1024);
    assert_eq!(p.files[1].format, "csv");
    assert_eq!(p.files[1].size, 2048);
    assert_eq!(p.files[2].format, "json");
    assert_eq!(p.files[2].size, 1024);
    assert_eq!(p.files[3].format, "json");
    assert_eq!(p.files[3].size, 2048);
}

#[test]
fn custom_file_name_is_supported_for_single_output() {
    let mut a = json_args(&["csv", "1KiB", "/tmp/out"]);
    a.name = Some("users.csv".to_string());
    let p = plan(&a);
    assert_eq!(p.files[0].file_name, "users.csv");
}

#[test]
fn custom_file_name_template_is_supported_for_multiple_outputs() {
    let mut a = json_args(&["csv,json", "1KiB,2KiB", "/tmp/out"]);
    a.name = Some("{format}-{size}.{extension}".to_string());
    let p = plan(&a);
    let names: Vec<&str> = p.files.iter().map(|f| f.file_name.as_str()).collect();
    assert_eq!(names, vec!["csv-1KiB.csv", "csv-2KiB.csv", "json-1KiB.json", "json-2KiB.json"]);
}

#[test]
fn duplicate_custom_file_names_are_rejected() {
    let mut a = json_args(&["csv,json", "1KiB", "/tmp/out"]);
    a.name = Some("fixture.dat".to_string());
    assert!(refusal(&a).contains("custom file name produced duplicate output path"));
}

#[test]
fn custom_file_name_cannot_escape_output_dir() {
    let mut a = json_args(&["txt", "1KiB", "/tmp/out"]);
    a.name = Some("../escape.txt".to_string());
    let p = plan(&a);
    assert!(p.files.is_empty());
    let e = p.failure.expect("the name is refused");
    assert!(e.message().contains("custom file name must not contain path separators"));
}

#[test]
fn default_output_dir_is_current_directory() {
    let p = plan(&json_args(&["txt", "1KiB"]));
    assert_eq!(p.out_dir, ".");
    assert_eq!(p.files[0].file_name, "sample_1KiB.txt");
}

#[test]
fn rejects_ambiguous_positional_typo_instead_of_treating_it_as_output_dir() {
    assert!(refusal(&json_args(&["cvs", "1KiB"]))
        .contains("could not infer positional argument `cvs`"));
}

#[test]
fn rejects_sizes_above_default_limit_without_allow_large() {
    assert!(refusal(&json_args(&["txt", "2GiB"])).contains("exceeds default limit"));
}

#[test]
fn json_mode_errors_are_machine_readable() {
    let report = ErrorReport::new(refusal(&json_args(&["txt", "2GiB"])));
    assert_eq!(report.report_type, "error");
    assert!(!report.ok);
    assert!(report.error.contains("exceeds default limit"));
    assert_eq!(
        report.error,
        "requested size 2GiB exceeds default limit 1GiB; pass --allow-large to override"
    );
}

#[test]
fn invalid_template_fails_with_json_error() {
    let mut a = json_args(&["txt", "1KiB"]);
    a.template = Some("{{nope}}".to_string());
    assert!(refusal(&a).contains("invalid template"));
}

#[test]
fn quiet_json_output_is_agent_friendly() {
    let mut a = base();
    a.quiet = true;
    a.output = OutputMode::Json;
    a.items = s(&["txt", "1KiB"]);
    a.tags = s(&["run=ci"]);
    let p = plan(&a);
    assert_eq!(p.output_mode, OutputMode::Json);
    assert!(p.quiet);
    assert_eq!(p.tags[0].key, "run");
    assert_eq!(p.files[0].file_name, "sample_run-ci_1KiB.txt");
}

#[test]
fn json_flag_is_compact_agent_shorthand() {
    let mut a = json_args(&[]);
    a.sizes = Some(s(&["100KiB"]));
    a.formats = Some(s(&["txt"]));
    a.tags = s(&["run=ci"]);
    let p = plan(&a);
    assert_eq!(p.output_mode, OutputMode::Json);
    assert!(p.quiet);
    assert_eq!(p.tags[0].value, "ci");
    assert_eq!(p.files.len(), 1);
}

#[test]
fn deprecated_agent_flag_matches_quiet_json_output() {
    let mut a = base();
    a.agent = true;
    a.items = s(&["txt", "1KiB"]);
    assert_eq!(a.output_mode(), OutputMode::Json);
    assert!(a.quiet());
    let p = plan(&a);
    assert_eq!(p.output_mode, OutputMode::Json);
    assert!(p.quiet);
}

#[test]
fn defaults_give_every_format_and_three_sizes() {
    let p = plan(&base());
    assert_eq!(p.planned_count, 27);
    assert_eq!(p.files[0].file_name, "sample_10KiB.csv");
    assert_eq!(p.files[26].file_name, "sample_1MiB.png");
    assert_eq!(p.files[21].format, "jpg");
    assert!(p.failure.is_none());
}

#[test]
fn unsupported_flagged_format_stops_after_earlier_files() {
    let mut a = base();
    a.formats = Some(s(&["CSV", "doc", "txt"]));
    a.sizes = Some(s(&["1KiB"]));
    let p = plan(&a);
    assert_eq!(p.planned_count, 3);
    assert_eq!(p.files.len(), 1);
    assert_eq!(p.files[0].format, "csv");
    assert_eq!(
        p.failure.unwrap().message(),
        "unsupported format: doc; run `dumpx --list-formats`"
    );
}

#[test]
fn jpeg_files_get_the_jpg_extension() {
    let mut a = base();
    a.formats = Some(s(&["jpeg"]));
    a.sizes = Some(s(&["1KiB"]));
    let p = plan(&a);
    assert_eq!(p.files[0].format, "jpeg");
    assert_eq!(p.files[0].file_name, "sample_1KiB.jpg");
}

#[test]
fn refusals_come_in_order() {
    let mut a = json_args(&["txt", "1KiB"]);
    a.tags = s(&["bad"]);
    a.template = Some("{{".to_string());
    assert_eq!(refusal(&a), "invalid tag `bad`; expected KEY=VALUE");
    a.tags = Vec::new();
    assert_eq!(refusal(&a), "invalid template: template has an unclosed placeholder");
    a.template = None;
    a.prefix = "%%".to_string();
    assert_eq!(refusal(&a), "prefix must contain at least one filename-safe character");
    a.prefix = "p".to_string();
    a.max_files = 0;
    assert_eq!(refusal(&a), "--max-files must be greater than zero");
}

#[test]
fn template_file_text_is_used() {
    let mut a = json_args(&["txt", "1KiB"]);
    a.template_file = Some("t.txt".to_string());
    match plan_run(&a, Some(Ok("user {{id}} {{username}}".to_string()))) {
        Ok(RunPlan::Generate(p)) => {
            assert!(p.templates.body.is_some());
        }
        _ => panic!("template file refused"),
    }
    match plan_run(&a, Some(Err("failed to read template file t.txt: gone".to_string()))) {
        Err(e) => assert_eq!(e.message(), "failed to read template file t.txt: gone"),
        _ => panic!("unreadable template accepted"),
    }
    a.template = Some("{{id}}".to_string());
    match plan_run(&a, Some(Ok("{{id}}".to_string()))) {
        Err(e) => assert_eq!(e.message(), "use either --template or --template-file, not both"),
        _ => panic!("both templates accepted"),
    }
}

#[test]
fn load_templates_keeps_the_header() {
    let o = load_templates(Some("{{id}}".to_string()), None, Some("h".to_string())).unwrap();
    assert!(o.body.is_some());
    assert_eq!(o.header.as_deref(), Some("h"));
    let o = load_templates(None, None, None).unwrap();
    assert!(o.body.is_none());
    assert!(matches!(
        load_templates(Some("a".to_string()), Some(Ok("b".to_string())), None),
        Err(Error::TemplateConflict)
    ));
}

#[test]
fn prompt_values_split_and_default() {
    assert_eq!(split_prompt_values(" a, ,b ,, c "), vec!["a", "b", "c"]);
    assert!(split_prompt_values("").is_empty());
    assert_eq!(prompt_value("  \n", "10KiB"), "10KiB");
    assert_eq!(prompt_value(" csv \n", "x"), "csv");
}

#[test]
fn output_modes_parse() {
    assert_eq!(parse_output_mode(" JSON ").unwrap(), OutputMode::Json);
    assert_eq!(parse_output_mode("jsonl").unwrap(), OutputMode::Jsonl);
    assert_eq!(parse_output_mode("Text").unwrap(), OutputMode::Text);
    let e = parse_output_mode("yaml").unwrap_err();
    assert_eq!(e.message(), "unsupported output mode `yaml`; use text, json, or jsonl");
}

#[test]
fn prompts_build_arguments() {
    let a = args_from_prompts("out", "1KiB, 2KiB", "csv", "", "p", "json").unwrap();
    assert_eq!(a.out_dir, "out");
    assert_eq!(a.sizes, Some(s(&["1KiB", "2KiB"])));
    assert_eq!(a.formats, Some(s(&["csv"])));
    assert!(a.tags.is_empty());
    assert_eq!(a.output, OutputMode::Json);
    assert_eq!(a.max_files, 100);
    assert!(matches!(
        args_from_prompts("o", "", "", "", "p", "xml"),
        Err(Error::UnsupportedOutputMode { .. })
    ));
}

#[test]
fn positional_words() {
    let p = infer_positional_items(&s(&["CSV,1KiB", "json", "2MB", "dir"])).unwrap();
    assert_eq!(p.formats, vec!["csv", "json"]);
    assert_eq!(p.sizes, vec!["1KiB", "2MB"]);
    assert_eq!(p.out_dir.as_deref(), Some("dir"));
    let e = infer_positional_items(&s(&["csv", "1KiB", "a", "b"])).unwrap_err();
    assert_eq!(
        e.message(),
        "could not infer positional argument `b` as a format, size, or output directory"
    );
    assert!(infer_positional_items(&s(&["csv,1KiB,dir"])).is_err());
    assert!(infer_positional_items(&s(&["dir", "csv", "1KiB"])).is_err());
}

#[test]
fn merging_prefers_given_values() {
    let d = s(&["d"]);
    assert_eq!(merge_or_default(Some(s(&["a"])), s(&["b"]), d.clone()), vec!["a", "b"]);
    assert_eq!(merge_or_default(None, s(&[]), d.clone()), vec!["d"]);
    assert_eq!(merge_or_default(Some(s(&[])), s(&[]), d), vec!["d"]);
}

#[test]
fn limits() {
    assert!(matches!(validate_generation_limits(&[1], 1, false, 0), Err(Error::MaxFilesZero)));
    assert!(matches!(
        validate_generation_limits(&[1, 2], usize::MAX, false, 5),
        Err(Error::FileCountOverflow)
    ));
    match validate_generation_limits(&[1, 2, 3], 4, false, 10) {
        Err(e @ Error::TooManyFiles { .. }) => {
            assert_eq!(e.message(), "requested 12 files, which exceeds --max-files 10")
        }
        other => panic!("unexpected {other:?}"),
    }
    let big = 2 * 1024 * 1024 * 1024;
    assert!(matches!(
        validate_generation_limits(&[1, big, big + 1], 1, false, 10),
        Err(Error::SizeAboveLimit { size }) if size == big
    ));
    assert!(validate_generation_limits(&[1, big], 1, true, 10).is_ok());
    assert!(matches!(
        validate_generation_limits(&[], 1, false, 1),
        Ok(())
    ));
    assert_eq!(
        Error::FileCountOverflow.message(),
        "requested file count overflowed"
    );
}

#[test]
fn build_files_without_sizes_is_empty() {
    let (files, failure) = build_files(&s(&["csv"]), &Vec::new(), 1, None, "p").unwrap();
    assert!(files.is_empty());
    assert!(failure.is_none());
}

#[test]
fn report_lines() {
    let f = GeneratedFile {
        format: "csv".to_string(),
        requested_size: 1024,
        requested_size_label: "1KiB".to_string(),
        actual_size: 1100,
        path: "./sample_1KiB.csv".to_string(),
        tags: Vec::new(),
    };
    assert_eq!(file_report_line(&f), "    csv       1KiB -> 1100 bytes (./sample_1KiB.csv)");
    assert_eq!(summary_line(3), "generated 3 file(s)");
    assert!(reports_each_file(OutputMode::Text, false));
    assert!(reports_each_file(OutputMode::Jsonl, false));
    assert!(!reports_each_file(OutputMode::Json, false));
    assert!(!reports_each_file(OutputMode::Text, true));
    let r = RunReport::new(".".to_string(), 2, vec![f]);
    assert_eq!(r.report_type, "summary");
    assert!(r.ok);
    assert_eq!(r.count, 1);
    assert_eq!(r.planned_count, 2);
}

#[test]
fn json_flag_matches_quiet_json_output() {
    let mut short = base();
    short.json = true;
    let mut long = base();
    long.quiet = true;
    long.output = OutputMode::Json;
    assert_eq!(short.output_mode(), long.output_mode());
    assert_eq!(short.quiet(), long.quiet());
}

#[test]
fn custom_names_with_index_are_distinct() {
    let mut a = json_args(&["csv", "1KiB"]);
    a.number_of_files = 3;
    a.name = Some("f{index}.{extension}".to_string());
    let p = plan(&a);
    let names: Vec<&str> = p.files.iter().map(|f| f.file_name.as_str()).collect();
    assert_eq!(names, vec!["f1.csv", "f2.csv", "f3.csv"]);
    a.name = Some("f.{extension}".to_string());
    assert_eq!(
        refusal(&a),
        "custom file name produced duplicate output path: f.csv"
    );
}
