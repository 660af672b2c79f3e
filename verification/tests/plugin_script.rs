use codex_runtime::plugin_script::execution::PluginScriptExecution;
use codex_runtime::plugin_script::execution::PluginScriptLifecycleStatus;
use codex_runtime::plugin_script::file_name::file_name;
use codex_runtime::plugin_script::file_name::Platform;
use codex_runtime::plugin_script::resolve::resolve_plugin_script;
use codex_runtime::plugin_script::resolve::PathPart;
use codex_runtime::plugin_script::resolve::PluginRoot;
use codex_runtime::plugin_script::resolve::ResolvedPluginScript;
use codex_runtime::plugin_script::resolve::SkillScripts;
use codex_runtime::plugin_script::script::script_token;
use codex_runtime::plugin_script::tokens::command_tokens;
use codex_runtime::plugin_script::tokens::has_unquoted_compound_operator;
use codex_runtime::plugin_script::tokens::is_env_assignment;
use codex_runtime::plugin_script::tokens::split_windows_command;

const ROOT: &str = "/tmp/plugin";

fn parts(path: &str) -> Vec<PathPart> {
    let mut out = vec![PathPart { normal: false, raw: b"/".to_vec(), text: "/".to_string() }];
    for name in path.split('/').filter(|name| !name.is_empty() && *name != ".") {
        out.push(PathPart {
            normal: true,
            raw: name.as_bytes().to_vec(),
            text: name.to_string(),
        });
    }
    out
}

fn roots() -> Vec<PluginRoot> {
    vec![PluginRoot { plugin_id: "openai/demo".to_string(), directory: Some(parts(ROOT)) }]
}

fn demo_skill() -> Vec<SkillScripts> {
    vec![SkillScripts {
        name: "demo".to_string(),
        skill_path: format!("{ROOT}/skills/demo/SKILL.md"),
        plugin_id: Some("openai/demo".to_string()),
        enabled: true,
        scripts_directory: Some(parts(&format!("{ROOT}/skills/demo/scripts"))),
    }]
}

/// Resolves a command that is run in the directory of the plugin, where exactly
/// the given files exist; each stands for the file that it really is.
fn resolve(
    files: &[(&str, &str)],
    skills: &[SkillScripts],
    command: &str,
) -> Option<ResolvedPluginScript> {
    let token = script_token(Platform::Unix, command)?;
    let path = if token.starts_with('/') {
        token
    } else {
        format!("{ROOT}/{}", token.strip_prefix("./").unwrap_or(&token))
    };
    let (_, real) = files.iter().find(|(name, _)| *name == path)?;
    resolve_plugin_script(&parts(real), &roots(), skills)
}

const RUN_PY: (&str, &str) =
    ("/tmp/plugin/skills/demo/scripts/run.py", "/tmp/plugin/skills/demo/scripts/run.py");

#[test]
fn resolves_interpreter_script_to_plugin_relative_path_and_skill() {
    let resolved = resolve(
        &[RUN_PY],
        &demo_skill(),
        "python skills/demo/scripts/run.py --secret argument",
    )
    .expect("plugin script");

    assert_eq!(resolved.plugin_id, "openai/demo");
    assert_eq!(resolved.script_path, "skills/demo/scripts/run.py");
    assert_eq!(resolved.skill.expect("skill").skill_name, "demo");
}

#[test]
fn resolves_direct_executable_without_a_known_extension() {
    let run = ("/tmp/plugin/bin/run", "/tmp/plugin/bin/run");
    let resolved = resolve(&[RUN_PY, run], &[], "./bin/run").expect("plugin script");

    assert_eq!(resolved.script_path, "bin/run");
    assert!(resolved.skill.is_none());
}

#[test]
fn rejects_non_plugin_and_symlink_escape_paths() {
    let outside = ("/tmp/outside.py", "/tmp/outside.py");
    let escape = ("/tmp/plugin/escape.py", "/tmp/outside.py");
    assert!(resolve(&[outside], &[], "/tmp/outside.py").is_none());
    assert!(resolve(&[outside, escape], &[], "python escape.py").is_none());
}

#[test]
fn rejects_compound_shell_commands() {
    assert!(resolve(
        &[RUN_PY],
        &[],
        "python skills/demo/scripts/run.py && python skills/demo/scripts/run.py",
    )
    .is_none());
}

#[test]
fn resolves_single_script_with_environment_and_redirection() {
    let resolved = resolve(
        &[RUN_PY],
        &[],
        "PLUGIN_MODE=test python skills/demo/scripts/run.py > output.log",
    )
    .expect("plugin script");

    assert_eq!(resolved.script_path, "skills/demo/scripts/run.py");
    let env_resolved =
        resolve(&[RUN_PY], &[], "env PLUGIN_MODE=test python skills/demo/scripts/run.py")
            .expect("env-prefixed plugin script");
    assert_eq!(env_resolved.script_path, "skills/demo/scripts/run.py");
    assert!(!has_unquoted_compound_operator(
        "python skills/demo/scripts/run.py 'literal;argument'"
    ));
}

#[test]
fn parses_runner_subcommands_and_option_arguments_without_false_attribution() {
    let files = [
        RUN_PY,
        ("/tmp/plugin/skills/demo/scripts/run.ts", "/tmp/plugin/skills/demo/scripts/run.ts"),
        ("/tmp/plugin/skills/demo/scripts/loader.js", "/tmp/plugin/skills/demo/scripts/loader.js"),
        ("/tmp/plugin/skills/demo/scripts/run.js", "/tmp/plugin/skills/demo/scripts/run.js"),
        ("/tmp/plugin/Python", "/tmp/plugin/Python"),
    ];
    let deno = resolve(&files, &[], "deno run --allow-read skills/demo/scripts/run.ts")
        .expect("deno plugin script");
    assert_eq!(deno.script_path, "skills/demo/scripts/run.ts");

    let node = resolve(
        &files,
        &[],
        "node --loader skills/demo/scripts/loader.js skills/demo/scripts/run.js",
    )
    .expect("node plugin script");
    assert_eq!(node.script_path, "skills/demo/scripts/run.js");

    assert!(resolve(&files, &[], "python -c skills/demo/scripts/run.py").is_none());

    for command in [
        "python --help skills/demo/scripts/run.py",
        "python - skills/demo/scripts/run.py",
        "bash -s skills/demo/scripts/run.py",
        "env -S 'python -c' skills/demo/scripts/run.py",
        "env -C skills/demo python scripts/run.py",
        "pwsh -WorkingDirectory skills/demo -File scripts/run.ps1",
    ] {
        assert!(
            resolve(&files, &[], command).is_none(),
            "unexpected lifecycle attribution for {command}"
        );
    }

    let direct = resolve(&files, &[], "./Python").expect("case-sensitive direct executable");
    assert_eq!(direct.script_path, "Python");
}

#[test]
fn windows_command_split_preserves_paths_and_rejects_compounds() {
    assert_eq!(
        split_windows_command(r#"pwsh.exe -File C:\Users\me\plugin\scripts\run.ps1"#),
        Some(vec![
            "pwsh.exe".to_string(),
            "-File".to_string(),
            r#"C:\Users\me\plugin\scripts\run.ps1"#.to_string(),
        ])
    );
    assert_eq!(
        split_windows_command(r#"& 'C:\Program Files\plugin\scripts\run.ps1'"#),
        Some(vec![r#"C:\Program Files\plugin\scripts\run.ps1"#.to_string()])
    );
    assert!(split_windows_command("python a.py; python b.py").is_none());
}

#[test]
fn the_innermost_plugin_and_the_first_enabled_skill_are_taken() {
    let mut all = roots();
    all.push(PluginRoot {
        plugin_id: "openai/inner".to_string(),
        directory: Some(parts("/tmp/plugin/skills")),
    });
    all.push(PluginRoot { plugin_id: "openai/gone".to_string(), directory: None });
    let resolved = resolve_plugin_script(&parts(RUN_PY.1), &all, &demo_skill()).expect("script");
    assert_eq!(resolved.plugin_id, "openai/inner");
    assert_eq!(resolved.script_path, "demo/scripts/run.py");
    assert!(resolved.skill.is_none());

    let mut skills = demo_skill();
    skills[0].enabled = false;
    let resolved = resolve_plugin_script(&parts(RUN_PY.1), &roots(), &skills).expect("script");
    assert!(resolved.skill.is_none());
}

#[test]
fn bare_programs_and_open_quotations_are_no_scripts() {
    assert_eq!(script_token(Platform::Unix, "python"), None);
    assert_eq!(script_token(Platform::Unix, "ls -la"), None);
    assert_eq!(script_token(Platform::Unix, "python 'open"), None);
    assert_eq!(command_tokens(Platform::Unix, "python 'open"), None);
    assert_eq!(
        script_token(Platform::Unix, "python 'my script.py'"),
        Some("my script.py".to_string())
    );
    assert!(is_env_assignment(&['A', '_', '1', '=', 'x']));
    assert!(!is_env_assignment(&['1', '=', 'x']));
}

#[test]
fn a_run_starts_once_and_ends_once() {
    let resolved = ResolvedPluginScript {
        plugin_id: "openai/demo".to_string(),
        script_path: "run.py".to_string(),
        skill: None,
    };
    let mut run = PluginScriptExecution::with_execution_id(
        resolved.clone(),
        "thread",
        "turn",
        "execution".to_string(),
    );
    assert!(run.finish(Some(0), false, 1).is_none());
    let started = run.mark_started(2_000_000).expect("started");
    assert_eq!(started.status, PluginScriptLifecycleStatus::Started);
    assert_eq!(started.execution_id, "execution");
    assert_eq!(started.duration_ms, None);
    assert!(run.mark_started(3_000_000).is_none());
    let ended = run.finish(Some(0), false, 7_500_000).expect("ended");
    assert_eq!(ended.status, PluginScriptLifecycleStatus::Completed);
    assert_eq!(ended.duration_ms, Some(5));
    assert_eq!(ended.exit_code, Some(0));
    assert!(run.finish(Some(0), false, 8_000_000).is_none());

    let mut failed = PluginScriptExecution::with_execution_id(
        resolved.clone(),
        "thread",
        "turn",
        "execution".to_string(),
    );
    let _ = failed.mark_started(0);
    assert_eq!(
        failed.finish(Some(2), false, 0).expect("ended").status,
        PluginScriptLifecycleStatus::Failed
    );

    let mut cancelled = PluginScriptExecution::with_execution_id(
        resolved.clone(),
        "thread",
        "turn",
        "execution".to_string(),
    );
    let _ = cancelled.mark_started(0);
    cancelled.mark_cancelled();
    assert_eq!(
        cancelled.finish(Some(0), false, 0).expect("ended").status,
        PluginScriptLifecycleStatus::Cancelled
    );

    assert!(PluginScriptExecution::resolve(false, Some(resolved.clone()), "a", "b").is_none());
    assert!(PluginScriptExecution::resolve(true, None, "a", "b").is_none());
    let mut one = PluginScriptExecution::resolve(true, Some(resolved.clone()), "a", "b").expect("run");
    let mut two = PluginScriptExecution::resolve(true, Some(resolved), "a", "b").expect("run");
    let first = one.mark_started(0).expect("started");
    assert_ne!(first.execution_id, two.mark_started(0).expect("started").execution_id);
    assert_eq!(first.execution_id.as_bytes()[14], b'4');
}

#[test]
fn windows_prefixes_name_no_file() {
    let name = |path: &str| {
        let chars: Vec<char> = path.chars().collect();
        file_name(Platform::Windows, &chars).map(|name| name.into_iter().collect::<String>())
    };
    let cases = [
        (r"C:\dir\python.exe", Some("python.exe")),
        (r"C:python", Some("python")),
        (r"C:", None),
        (r"C:\", None),
        (r"dir/python\", Some("python")),
        (r"dir\..", None),
        (r"dir\.", Some("dir")),
        (r"\\python", Some("python")),
        (r"\\server\", Some("server")),
        (r"\\server\\x", Some("x")),
        (r"\\server\share", None),
        (r"\\server\share\", None),
        (r"\\server\share\python", Some("python")),
        (r"//server/share/python", Some("python")),
        (r"\\.\COM42", None),
        (r"\\.\COM42\python", Some("python")),
        (r"\\?\UNC\server\share", None),
        (r"\\?\UNC\server\share\python", Some("python")),
        (r"\\?\C:\dir\python", Some("python")),
        (r"\\?\C:\dir/python", Some("dir/python")),
        (r"\\?\C:\dir\.", None),
        (r"\\?\C:", None),
        (r"\\?\pictures", None),
        (r"\\?\pictures\cat", Some("cat")),
        (r"//?/C:/python", Some("python")),
    ];
    for (path, expected) in cases {
        assert_eq!(name(path).as_deref(), expected, "{path}");
    }
    assert_eq!(script_token(Platform::Windows, r"\\python run.py").as_deref(), Some("run.py"));
}

#[test]
fn the_first_finish_after_the_start_is_the_one_that_is_reported() {
    let mut run = PluginScriptExecution::with_execution_id(
        ResolvedPluginScript {
            plugin_id: "openai/demo".to_string(),
            script_path: "run.py".to_string(),
            skill: None,
        },
        "thread",
        "turn",
        "execution".to_string(),
    );
    assert!(run.finish(Some(9), true, 1).is_none());
    assert!(run.mark_started(1_000_000).is_some());
    let ended = run.finish(Some(3), false, 4_000_000).expect("ended");
    assert_eq!(ended.exit_code, Some(3));
    assert_eq!(ended.duration_ms, Some(3));
    assert_eq!(ended.status, PluginScriptLifecycleStatus::Failed);
    run.mark_cancelled();
    assert!(run.finish(Some(0), false, 5_000_000).is_none());
    assert!(run.mark_started(6_000_000).is_none());
}
