use cmd_dashboard::config::CommandInfo;
use cmd_dashboard::handler::CommandHandler;
use cmd_dashboard::page::{join_args, render_command_result, render_pre_text, render_result_page};
use cmd_dashboard::process::{output_text, spawn_error_text, ProcessOutcome};

fn command(path: &str, description: &str, command: &str, args: &[&str]) -> CommandInfo {
    CommandInfo {
        http_path: path.to_string(),
        description: description.to_string(),
        command: command.to_string(),
        args: args.iter().map(|a| a.to_string()).collect(),
    }
}

fn head(title: &str) -> String {
    format!(
        "<!DOCTYPE html><html><head><title>{}</title><meta name=\"viewport\" content=\"width=device, initial-scale=1\"><link rel=\"stylesheet\" type=\"text/css\" href=\"style.css\"></head><body>",
        title
    )
}

const NOW: &str = "2024-05-06 07:08:09.123456789 +0200";

fn pre_block(page: &str) -> &str {
    let start = page.find("<pre>").unwrap() + "<pre>".len();
    let end = page.rfind("</pre>").unwrap();
    &page[start..end]
}

fn is_timestamp(text: &str) -> bool {
    let shape = "dddd-dd-dd dd:dd:dd.ddddddddd sdddd";
    text.len() == shape.len()
        && text.chars().zip(shape.chars()).all(|(c, s)| match s {
            'd' => c.is_ascii_digit(),
            's' => c == '+' || c == '-',
            other => c == other,
        })
}

#[test]
fn new_joins_arguments_with_single_spaces() {
    assert_eq!(CommandHandler::new(command("/a", "A", "a", &[])).args_string(), "");
    assert_eq!(CommandHandler::new(command("/a", "A", "a", &["x"])).args_string(), "x");
    assert_eq!(
        CommandHandler::new(command("/a", "A", "a", &["-l", "-a", "/tmp"])).args_string(),
        "-l -a /tmp"
    );
    assert_eq!(CommandHandler::new(command("/a", "A", "a", &["", ""])).args_string(), " ");
    assert_eq!(
        CommandHandler::new(command("/a", "A", "a", &["two words", "x"])).args_string(),
        "two words x"
    );
}

#[test]
fn new_keeps_the_command_info() {
    let handler = CommandHandler::new(command("/df", "Disk usage", "df", &["-h"]));
    let info = handler.command_info();
    assert_eq!(info.http_path, "/df");
    assert_eq!(info.description, "Disk usage");
    assert_eq!(info.command, "df");
    assert_eq!(info.args, vec!["-h".to_string()]);
}

#[test]
fn join_args_matches_std_join() {
    let args = vec!["a".to_string(), "".to_string(), "b c".to_string()];
    assert_eq!(join_args(&args), args.join(" "));
    assert_eq!(join_args(&Vec::new()), "");
}

#[test]
fn pre_string_holds_time_invocation_and_output() {
    let handler = CommandHandler::new(command("/echo", "Echo", "echo", &["hello"]));
    let pre = handler.build_pre_string_at(NOW, "hello\n".to_string());
    assert_eq!(pre, "Now: 2024-05-06 07:08:09.123456789 +0200\n\n$ echo hello\n\nhello\n");
}

#[test]
fn pre_string_without_arguments_keeps_the_separating_space() {
    let handler = CommandHandler::new(command("/uptime", "Uptime", "uptime", &[]));
    let pre = handler.build_pre_string_at(NOW, "up 3 days\n".to_string());
    assert_eq!(pre, "Now: 2024-05-06 07:08:09.123456789 +0200\n\n$ uptime \n\nup 3 days\n");
}

#[test]
fn pre_string_with_empty_output() {
    let handler = CommandHandler::new(command("/true", "True", "true", &[]));
    let pre = handler.build_pre_string_at(NOW, String::new());
    assert_eq!(pre, "Now: 2024-05-06 07:08:09.123456789 +0200\n\n$ true \n\n");
}

#[test]
fn pre_string_is_stamped_with_the_local_time() {
    let handler = CommandHandler::new(command("/echo", "Echo", "echo", &["hello"]));
    let pre = handler.build_pre_string("hello\n".to_string());
    let rest = pre.strip_prefix("Now: ").unwrap();
    let (stamp, tail) = rest.split_at(rest.find('\n').unwrap());
    assert!(is_timestamp(stamp), "unexpected time: {}", stamp);
    assert_eq!(tail, "\n\n$ echo hello\n\nhello\n");
}

#[test]
fn render_pre_text_composes_the_block() {
    assert_eq!(render_pre_text("T", "ls", "-l /", "out"), "Now: T\n\n$ ls -l /\n\nout");
    assert_eq!(render_pre_text("T", "ls", "", "out"), "Now: T\n\n$ ls \n\nout");
}

#[test]
fn html_string_wraps_the_block() {
    let handler = CommandHandler::new(command("/echo", "Echo it", "echo", &["hello"]));
    let page = handler.build_html_string("some\ntext".to_string());
    assert_eq!(page, format!("{}<pre>some\ntext</pre></body></html>", head("Echo it")));
}

#[test]
fn html_string_escapes_the_title_and_keeps_the_block_as_it_is() {
    let handler = CommandHandler::new(command("/x", "a < b & c", "x", &[]));
    let page = handler.build_html_string("<b>bold</b> & \"raw\"".to_string());
    assert_eq!(
        page,
        format!("{}<pre><b>bold</b> & \"raw\"</pre></body></html>", head("a &lt; b &amp; c"))
    );
}

#[test]
fn render_result_page_matches_handler() {
    let handler = CommandHandler::new(command("/x", "Title", "x", &[]));
    assert_eq!(
        render_result_page("Title", "block").unwrap(),
        handler.build_html_string("block".to_string())
    );
}

#[test]
fn echo_hello_page_shows_invocation_and_output() {
    let handler = CommandHandler::new(command("/echo", "Echo", "echo", &["hello"]));
    let outcome = ProcessOutcome::Completed(b"hello\n".to_vec());
    let response = handler.handle_at(NOW, &outcome);
    assert_eq!(response.status, 200);
    assert_eq!(response.content_type, "text/html");
    assert_eq!(
        response.body,
        format!(
            "{}<pre>Now: {}\n\n$ echo hello\n\nhello\n</pre></body></html>",
            head("Echo"),
            NOW
        )
    );
    let pre = pre_block(&response.body);
    let lines: Vec<&str> = pre.split('\n').collect();
    assert_eq!(lines[2], "$ echo hello");
    assert_eq!(lines[3], "");
    assert!(pre.ends_with("$ echo hello\n\nhello\n"));
}

#[test]
fn missing_executable_is_shown_as_text_with_status_200() {
    let handler = CommandHandler::new(command(
        "/missing",
        "Missing",
        "definitely-not-a-real-binary-xyz",
        &[],
    ));
    let outcome = ProcessOutcome::SpawnFailed("No such file or directory (os error 2)".to_string());
    let response = handler.handle(&outcome);
    assert_eq!(response.status, 200);
    assert_eq!(response.content_type, "text/html");
    assert!(response.body.contains("command error: "));
    assert!(response.body.ends_with(
        "\n\n$ definitely-not-a-real-binary-xyz \n\ncommand error: No such file or directory (os error 2)</pre></body></html>"
    ));
}

#[test]
fn two_requests_differ_only_in_the_time() {
    let handler = CommandHandler::new(command("/echo", "Echo", "echo", &["hello"]));
    let outcome = ProcessOutcome::Completed(b"hello\n".to_vec());
    let first = handler.handle(&outcome);
    let second = handler.handle(&outcome);
    let marker = "<pre>Now: ";
    let split = |body: &str| -> (String, String, String) {
        let at = body.find(marker).unwrap() + marker.len();
        let end = at + body[at..].find('\n').unwrap();
        (body[..at].to_string(), body[at..end].to_string(), body[end..].to_string())
    };
    let (before1, stamp1, after1) = split(&first.body);
    let (before2, stamp2, after2) = split(&second.body);
    assert_eq!(before1, before2);
    assert_eq!(after1, after2);
    assert!(is_timestamp(&stamp1));
    assert!(is_timestamp(&stamp2));
    assert_eq!(after1, "\n\n$ echo hello\n\nhello\n</pre></body></html>");
    assert_eq!(first.status, second.status);
    assert_eq!(first.content_type, second.content_type);
}

#[test]
fn handle_at_with_different_times_changes_only_the_time() {
    let handler = CommandHandler::new(command("/echo", "Echo", "echo", &["hello"]));
    let outcome = ProcessOutcome::Completed(b"hello\n".to_vec());
    let first = handler.handle_at("2024-05-06 07:08:09.000000001 +0000", &outcome);
    let second = handler.handle_at("2024-05-06 07:08:09.000000002 +0000", &outcome);
    assert_ne!(first.body, second.body);
    assert_eq!(
        first.body.replace("09.000000001", "09.000000002"),
        second.body
    );
    let again = handler.handle_at("2024-05-06 07:08:09.000000001 +0000", &outcome);
    assert_eq!(first.body, again.body);
}

#[test]
fn render_command_result_matches_handle_at() {
    let info = command("/ls", "List <all>", "ls", &["-l", "-a"]);
    let handler = CommandHandler::new(info.clone());
    let outcome = ProcessOutcome::Completed(b"a\nb\n".to_vec());
    let response = handler.handle_at(NOW, &outcome);
    let page =
        render_command_result(&info.description, &info.command, &info.args, NOW, "a\nb\n").unwrap();
    assert_eq!(response.body, page);
    assert_eq!(
        page,
        format!(
            "{}<pre>Now: {}\n\n$ ls -l -a\n\na\nb\n</pre></body></html>",
            head("List &lt;all&gt;"),
            NOW
        )
    );
}

#[test]
fn output_of_a_completed_process_is_decoded() {
    assert_eq!(output_text(&ProcessOutcome::Completed(b"hello\n".to_vec())), "hello\n");
    assert_eq!(output_text(&ProcessOutcome::Completed(Vec::new())), "");
    assert_eq!(
        output_text(&ProcessOutcome::Completed("grüße ✓".as_bytes().to_vec())),
        "grüße ✓"
    );
}

#[test]
fn invalid_bytes_are_replaced_and_never_fail() {
    let text = output_text(&ProcessOutcome::Completed(vec![b'a', 0xff, b'b', 0xc3]));
    assert_eq!(text, "a\u{fffd}b\u{fffd}");
    let text = output_text(&ProcessOutcome::Completed(vec![0xf0, 0x9f, 0x92]));
    assert_eq!(text, "\u{fffd}");
}

#[test]
fn spawn_failure_becomes_a_command_error_message() {
    assert_eq!(
        output_text(&ProcessOutcome::SpawnFailed("permission denied".to_string())),
        "command error: permission denied"
    );
    assert_eq!(spawn_error_text(""), "command error: ");
    assert_eq!(spawn_error_text("No such file"), "command error: No such file");
}
