use moviemail::email::{create_email, MailError};
use moviemail::model::Movie;

fn announced() -> Vec<Movie> {
    vec![Movie {
        id: 1,
        title: String::from("Alpha"),
        overview: String::new(),
        poster_path: None,
        release_date: String::from("2024-01-01"),
        job: Some(String::from("Director")),
        director_name: Some(String::from("D")),
        imdb_id: Some(String::from("tt1")),
    }]
}

#[test]
fn email_is_built_for_valid_addresses() {
    let r = create_email(
        announced(),
        String::from("Reader <reader@example.com>"),
        String::from("sender@example.com"),
        String::from("New films"),
    );
    let message = r.expect("message should build");
    let text = String::from_utf8(message.formatted()).unwrap();
    assert!(text.contains("New films"));
    assert!(text.contains("reader@example.com"));
    assert!(text.contains("Alpha - D"));
}

#[test]
fn email_rejects_bad_recipient() {
    let r = create_email(
        announced(),
        String::from("not an address"),
        String::from("also not one"),
        String::from("New films"),
    );
    assert!(matches!(r, Err(MailError::Recipient)));
}

#[test]
fn email_rejects_bad_sender() {
    let r = create_email(
        announced(),
        String::from("reader@example.com"),
        String::from("nobody"),
        String::from("New films"),
    );
    assert!(matches!(r, Err(MailError::Sender)));
}

#[test]
fn email_fails_when_address_does_not_read_back() {
    let r = create_email(
        announced(),
        String::from("\"\\\"a b\\\"\"@example.com"),
        String::from("sender@example.com"),
        String::from("New films"),
    );
    assert!(matches!(r, Err(MailError::Message)));
}
