use synx::content::{Content, ContentKind};
use synx::embedding::Embedding;
use synx::message::Message;
use synx::summary::{summary_prompt, Action, Event, Job, SUMMARY_PROMPT};
use synx::text::{chars_of, replace_all, stands_at};
use synx::thread::Thread;

fn message(content: Content) -> Message {
    Message { id: 2, thread_id: 1, role: "user".to_string(), content, created_at: 5 }
}

#[test]
fn prompt_fills_the_three_placeholders() {
    let prompt = summary_prompt("so far", "user", "what now?");
    assert_ne!(prompt, SUMMARY_PROMPT);
    assert!(prompt.contains("<current_summary>\nso far\n</current_summary>"));
    assert!(prompt.contains("<new_message role=\"user\">\nwhat now?\n</new_message>"));
    assert!(!prompt.contains("{{"));
    assert_eq!(
        prompt.len(),
        SUMMARY_PROMPT.len() - "{{CURRENT_SUMMARY}}{{ROLE}}{{NEW_MESSAGE}}".len()
            + "so far".len()
            + "user".len()
            + "what now?".len()
    );
    assert!(prompt.starts_with("Consider the current conversation summary"));
    assert!(prompt.ends_with("Be terse. Terse.\n"));
}

#[test]
fn prompt_replaces_in_the_order_summary_role_message() {
    let prompt = summary_prompt("{{ROLE}}", "{{NEW_MESSAGE}}", "x");
    assert!(prompt.contains("<current_summary>\nx\n</current_summary>"));
    assert!(prompt.contains("<new_message role=\"x\">\nx\n</new_message>"));
}

#[test]
fn message_without_text_starts_no_job() {
    let image = ContentKind::Image { image: "p".to_string(), mime_type: None };
    assert_eq!(Job::start(&message(Content::Single(image))), (Job::Over, Action::Stop));
    assert_eq!(Job::start(&message(Content::Multiple(vec![]))), (Job::Over, Action::Stop));
}

#[test]
fn job_runs_through_its_steps() {
    let (job, action) = Job::start(&message(Content::from("hello".to_string())));
    assert_eq!(action, Action::FetchThread { thread_id: 1 });
    assert_eq!(
        job,
        Job::AwaitThread { thread_id: 1, role: "user".to_string(), text: "hello".to_string() }
    );
    let mut thread = Thread::with_id(1);
    thread.set_summary("old".to_string());
    let (job, action) = job.resume(Event::Thread(thread));
    assert_eq!(job, Job::AwaitSummary { thread_id: 1 });
    assert_eq!(action, Action::Complete { prompt: summary_prompt("old", "user", "hello") });
    let (job, action) = job.resume(Event::Summary("new".to_string()));
    assert_eq!(job, Job::AwaitEmbedding { thread_id: 1, summary: "new".to_string() });
    assert_eq!(action, Action::Embed { text: "new".to_string() });
    let (job, action) = job.resume(Event::Embedding(Embedding::new(vec![1, 2])));
    assert_eq!(job, Job::Over);
    assert_eq!(
        action,
        Action::Store {
            thread_id: 1,
            summary: "new".to_string(),
            embedding: Embedding { bits: vec![1, 2] },
        }
    );
}

#[test]
fn thread_without_summary_gives_an_empty_one() {
    let (job, _) = Job::start(&message(Content::from("hello".to_string())));
    let (_, action) = job.resume(Event::Thread(Thread::with_id(1)));
    assert_eq!(action, Action::Complete { prompt: summary_prompt("", "user", "hello") });
}

#[test]
fn failure_or_a_wrong_event_ends_the_job() {
    let (job, _) = Job::start(&message(Content::from("hello".to_string())));
    assert_eq!(job.resume(Event::Failed), (Job::Over, Action::Stop));
    let (job, _) = Job::start(&message(Content::from("hello".to_string())));
    assert_eq!(job.resume(Event::Summary("s".to_string())), (Job::Over, Action::Stop));
    assert_eq!((Job::AwaitSummary { thread_id: 1 }).resume(Event::Failed), (Job::Over, Action::Stop));
    assert_eq!(
        (Job::AwaitEmbedding { thread_id: 1, summary: "s".to_string() }).resume(Event::Failed),
        (Job::Over, Action::Stop)
    );
    assert_eq!(Job::Over.resume(Event::Thread(Thread::with_id(1))), (Job::Over, Action::Stop));
}

#[test]
fn replacing_takes_matches_from_the_left_without_overlap() {
    for (text, from, to) in [
        ("aaa", "aa", "b"),
        ("aaaa", "aa", "b"),
        ("abcabc", "bc", ""),
        ("abcabc", "x", "y"),
        ("", "x", "y"),
        ("x", "x", "xx"),
        ("{{A}}{{A}}", "{{A}}", "{{A}}!"),
        ("héllo wörld héllo", "héllo", "ça"),
        ("日本語日本", "日本", "に"),
        ("ab", "abc", "z"),
    ] {
        assert_eq!(replace_all(text, from, to), text.replace(from, to));
    }
    assert_eq!(replace_all("aaa", "aa", "b"), "ba");
    assert_eq!(replace_all("abc", "", "x"), "abc");
}

#[test]
fn characters_and_matches() {
    assert_eq!(chars_of("héé"), vec!['h', 'é', 'é']);
    assert_eq!(chars_of(""), Vec::<char>::new());
    let text = chars_of("abcab");
    assert!(stands_at(&text, 3, &chars_of("ab")));
    assert!(stands_at(&text, 0, &chars_of("abc")));
    assert!(!stands_at(&text, 1, &chars_of("ab")));
    assert!(!stands_at(&text, 4, &chars_of("ba")));
    assert!(stands_at(&text, 5, &chars_of("")));
    assert!(!stands_at(&text, 5, &chars_of("a")));
}
