use refind_switcher::command::{CommandReply, Platform};
use refind_switcher::restart::{
    begin_restart, escalate_restart, next_restart_step, restart_attempts, restart_command,
    run_restart, run_restart_command, RestartAttemptOutcome, RestartRequests, RestartResult,
    RestartStage, RestartStep,
};

fn exited(success: bool, code: Option<i32>, stderr: &str) -> CommandReply {
    CommandReply::Exited {
        success,
        code,
        stderr: stderr.to_string(),
    }
}

#[test]
fn restart_attempt_chain_stops_after_cancelled_authorization() {
    // 命令执行成功：结束。
    assert_eq!(next_restart_step(&RestartAttemptOutcome::Success, true), RestartStep::Done);
    // 系统里没有这个命令：换下一个候选（例如没有 systemd 的发行版）。
    assert_eq!(
        next_restart_step(&RestartAttemptOutcome::Missing("没有 systemctl".to_string()), true),
        RestartStep::Next
    );
    // 权限不足且还有提权方案：用 pkexec 重试。
    assert_eq!(
        next_restart_step(
            &RestartAttemptOutcome::Failed("Interactive authentication required".to_string()),
            true
        ),
        RestartStep::Escalate
    );
    // 提权也失败了（多半是用户取消授权）：停手，
    // 不能“取消授权之后换个方式照样把机器重启了”。
    assert_eq!(
        next_restart_step(&RestartAttemptOutcome::Failed("Request dismissed".to_string()), false),
        RestartStep::Stop
    );
}

#[test]
fn macos_restart_uses_administrator_privileges() {
    let attempts = restart_attempts(Platform::MacOs);
    assert_eq!(attempts.len(), 1, "macOS 只走一条提权路径");
    let (program, args) = &attempts[0];
    assert_eq!(*program, "osascript");
    let script = args.join(" ");
    assert!(
        script.contains("administrator privileges"),
        "实际脚本: {script}"
    );
    assert!(
        script.contains("/sbin/shutdown -r now"),
        "实际脚本: {script}"
    );
    // 候选命令本身就带管理员授权，不需要再提权一层。
    assert!(escalate_restart(Platform::MacOs, false, program, args.as_slice()).is_none());
}

#[test]
fn restart_command_runner_classifies_results() {
    assert_eq!(
        run_restart_command("/usr/bin/true", &[], exited(true, Some(0), "")),
        RestartAttemptOutcome::Success
    );
    assert!(matches!(
        run_restart_command(
            "/nonexistent-restart-binary",
            &[],
            CommandReply::NotFound("No such file or directory (os error 2)".to_string())
        ),
        RestartAttemptOutcome::Missing(_)
    ));

    // 模拟“用户取消授权”：退出码非零 + stderr 说明，必须归类为失败并带上原因。
    let outcome = run_restart_command(
        "/bin/sh",
        &["-c", "echo 'Request dismissed' >&2; exit 126"],
        exited(false, Some(126), "Request dismissed\n"),
    );
    assert!(matches!(outcome, RestartAttemptOutcome::Failed(_)));
    let description = outcome.describe();
    assert!(description.contains("126"), "应带退出码: {description}");
    assert!(
        description.contains("Request dismissed"),
        "应带 stderr: {description}"
    );
}

#[test]
fn outcomes_are_described() {
    assert_eq!(RestartAttemptOutcome::Success.describe(), "已提交重启");
    assert_eq!(
        run_restart_command(
            "systemctl",
            &["reboot"],
            exited(false, Some(1), "  one \n\n two\r\n")
        ),
        RestartAttemptOutcome::Failed("systemctl reboot 失败（退出码 1）：one two".to_string())
    );
    assert_eq!(
        run_restart_command("systemctl", &["reboot"], exited(false, None, " \n")),
        RestartAttemptOutcome::Failed("systemctl reboot 失败（退出码 未知）".to_string())
    );
    assert_eq!(
        run_restart_command("a", &[], exited(false, Some(-2), "")),
        RestartAttemptOutcome::Failed("a  失败（退出码 -2）".to_string())
    );
    assert_eq!(
        run_restart_command("a", &["b"], CommandReply::NotFound("gone".to_string())),
        RestartAttemptOutcome::Missing("a b：gone".to_string())
    );
    let unstarted = run_restart_command("a", &["b"], CommandReply::Unstarted("denied".to_string()));
    assert_eq!(
        unstarted.clone(),
        RestartAttemptOutcome::Failed("a b 无法执行: denied".to_string())
    );
}

#[test]
fn attempts_depend_on_the_platform() {
    assert_eq!(
        restart_attempts(Platform::Linux),
        vec![("systemctl", vec!["reboot"]), ("loginctl", vec!["reboot"])]
    );
    assert_eq!(
        restart_attempts(Platform::Windows),
        vec![("shutdown", vec!["/r", "/t", "0"])]
    );
    assert_eq!(
        escalate_restart(Platform::Linux, false, "systemctl", &["reboot"]),
        Some(("pkexec", vec!["systemctl".to_string(), "reboot".to_string()]))
    );
    assert_eq!(
        escalate_restart(Platform::Linux, true, "systemctl", &["reboot"]),
        None
    );
    assert_eq!(
        escalate_restart(Platform::Windows, false, "shutdown", &["/r"]),
        None
    );
}

#[test]
fn missing_commands_lead_to_the_next_one() {
    let stage = begin_restart();
    let line = restart_command(Platform::Linux, false, &stage).unwrap();
    assert_eq!(line.program, "systemctl");
    assert_eq!(line.args, vec!["reboot"]);
    let stage = run_restart(
        Platform::Linux,
        false,
        stage,
        CommandReply::NotFound("gone".to_string()),
    );
    let line = restart_command(Platform::Linux, false, &stage).unwrap();
    assert_eq!(line.program, "loginctl");
    let stage = run_restart(
        Platform::Linux,
        false,
        stage,
        CommandReply::NotFound("gone".to_string()),
    );
    assert_eq!(
        stage,
        RestartStage::Finished(Err(
            "没有可用的重启命令（已尝试：systemctl reboot：gone；loginctl reboot：gone）"
                .to_string()
        ))
    );
    assert_eq!(restart_command(Platform::Linux, false, &stage), None);
}

#[test]
fn failed_command_is_repeated_with_more_rights() {
    let stage = run_restart(
        Platform::Linux,
        false,
        begin_restart(),
        exited(false, Some(1), "Interactive authentication required"),
    );
    assert_eq!(stage, RestartStage::RunEscalated { attempt: 0 });
    let line = restart_command(Platform::Linux, false, &stage).unwrap();
    assert_eq!(line.program, "pkexec");
    assert_eq!(line.args, vec!["systemctl", "reboot"]);
    assert_eq!(
        run_restart(
            Platform::Linux,
            false,
            RestartStage::RunEscalated { attempt: 0 },
            exited(true, Some(0), "")
        ),
        RestartStage::Finished(Ok(()))
    );
    assert_eq!(
        run_restart(
            Platform::Linux,
            false,
            stage,
            exited(false, Some(126), "Request dismissed")
        ),
        RestartStage::Finished(Err(
            "重启需要管理员授权，提权未完成：pkexec systemctl reboot 失败（退出码 126）：Request dismissed"
                .to_string()
        ))
    );
}

#[test]
fn failed_command_without_more_rights_ends_it() {
    assert_eq!(
        run_restart(
            Platform::Linux,
            true,
            begin_restart(),
            exited(false, Some(1), "no")
        ),
        RestartStage::Finished(Err(
            "重启失败：systemctl reboot 失败（退出码 1）：no（可能是没有权限或取消了授权）"
                .to_string()
        ))
    );
    assert_eq!(
        run_restart(Platform::Windows, false, begin_restart(), exited(true, Some(0), "")),
        RestartStage::Finished(Ok(()))
    );
}

#[test]
fn second_request_is_ignored_until_the_first_fails() {
    let mut requests = RestartRequests::new();
    assert!(requests.spawn_restart());
    assert!(!requests.spawn_restart());
    assert_eq!(
        requests.finish_restart(Err("denied".to_string())),
        RestartResult {
            ok: false,
            message: "denied".to_string()
        }
    );
    assert!(requests.spawn_restart());
    assert_eq!(
        requests.finish_restart(Ok(())),
        RestartResult {
            ok: true,
            message: "已提交重启，系统即将重启".to_string()
        }
    );
    assert!(!requests.spawn_restart());
}
