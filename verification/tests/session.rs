use hydrangea::message::Incoming;
use hydrangea::session::{
    after_attempt, after_handler, authenticate, forward_notice, handlers, quit_message, react, AuthStep, Handler,
    CONNECTION_ATTEMPTS, NICKNAME, PASSWORD,
};

fn server(text: &str) -> Incoming {
    Incoming { text: text.to_string(), nickname: Some("irc.example".to_string()), is_notice: false }
}

#[test]
fn sasl_is_requested_where_offered() {
    let steps = authenticate(&server(":irc.example CAP * LS :multi-prefix sasl=PLAIN\r\n"), false);
    assert_eq!(steps.len(), 1);
    assert!(matches!(steps[0], AuthStep::RequestSaslPlain));
}

#[test]
fn credentials_are_sent_in_base64() {
    let steps = authenticate(&server("AUTHENTICATE +\r\n"), false);
    assert_eq!(steps.len(), 1);
    match &steps[0] {
        AuthStep::SendSasl(encoded) => assert_eq!(encoded, "aHlkcmFuZ2VhAGh5ZHJhbmdlYQB5b3VybW9t"),
        _ => panic!("expected the credentials"),
    }
}

#[test]
fn acceptance_marks_the_bot_signed_in() {
    let steps = authenticate(&server(":irc.example 903 hydrangea :SASL Authentication successful\r\n"), false);
    assert_eq!(steps.len(), 2);
    assert!(matches!(steps[0], AuthStep::MarkAuthenticated));
    assert!(matches!(steps[1], AuthStep::Identify));
}

#[test]
fn no_sign_in_once_signed_in() {
    let steps = authenticate(&server("AUTHENTICATE + sasl=PLAIN Authentication successful"), true);
    assert!(steps.is_empty());
    let steps = authenticate(&server("AUTHENTICATE + sasl=PLAIN Authentication successful"), false);
    assert_eq!(steps.len(), 4);
}

#[test]
fn a_kick_makes_the_bot_quit_for_good() {
    let kick = server(":op!op@h KICK #bot hydrangea :bye\r\n");
    let r = react(false, &kick);
    assert!(r.send_quit && r.quit && !r.dispatch);
    let later = server(":a!a@h PRIVMSG #bot :hello\r\n");
    let r = react(r.quit, &later);
    assert!(!r.send_quit && r.quit && !r.dispatch);
    let r = react(false, &later);
    assert!(!r.quit && r.dispatch);
    assert_eq!(quit_message(), "GOODBYE FOREVER");
}

#[test]
fn another_kick_is_not_ours() {
    let r = react(false, &server(":op!op@h KICK #bot someone :bye\r\n"));
    assert!(!r.send_quit && r.dispatch);
}

#[test]
fn notices_of_the_other_bot_are_passed_on() {
    let notice = Incoming {
        text: ":buttbot!b@h NOTICE #bot :Some title\r\n".to_string(),
        nickname: Some("buttbot".to_string()),
        is_notice: true,
    };
    assert_eq!(forward_notice(&notice), Some(":buttbot!b@h NOTICE #bot :Some title\r\n".to_string()));
    let other = Incoming { nickname: Some("carol".to_string()), ..notice };
    assert_eq!(forward_notice(&other), None);
    let privmsg = Incoming {
        text: "x".to_string(),
        nickname: Some("buttbot".to_string()),
        is_notice: false,
    };
    assert_eq!(forward_notice(&privmsg), None);
}

#[test]
fn commands_run_in_order() {
    let order = handlers();
    assert_eq!(order.len(), 15);
    assert_eq!(order[0], Handler::Smoke);
    assert_eq!(order[11], Handler::Abuse);
    assert_eq!(order[14], Handler::Rmbot);
}

#[test]
fn the_bot_connects_a_fixed_number_of_times() {
    let mut left = CONNECTION_ATTEMPTS;
    let mut attempts = 0u32;
    loop {
        attempts += 1;
        match after_attempt(left) {
            Some(l) => left = l,
            None => break,
        }
    }
    assert_eq!(attempts, 69420);
    assert_eq!(NICKNAME, "hydrangea");
    assert_eq!(PASSWORD, "yourmom");
}

#[test]
fn commands_stop_at_the_first_failure() {
    let fails_at = 4;
    let mut run = Vec::new();
    let mut index = 0;
    loop {
        run.push(index);
        match after_handler(index, index != fails_at) {
            Some(next) => index = next,
            None => break,
        }
    }
    assert_eq!(run, vec![0, 1, 2, 3, 4]);
    let mut all = 0;
    let mut index = 0;
    loop {
        all += 1;
        match after_handler(index, true) {
            Some(next) => index = next,
            None => break,
        }
    }
    assert_eq!(all, 15);
}
