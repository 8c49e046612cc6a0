//! The messages the bot posts: a configured line of text, optionally under a
//! picture found by a search term.

use crate::config::Config;
use rand::seq::IteratorRandom;
use vstd::prelude::*;

verus! {

/// The title shown under a picture.
pub const PICTURE_TITLE: &'static str = "Powered By GIPHY";

/// Relies on rand's `IteratorRandom::choose` over `0..len`, with the thread's
/// generator: `None` exactly when the range is empty, else one of its values.
#[verifier::external_body]
fn random_index(len: usize) -> (r: Option<usize>)
    ensures
        r is Some <==> len > 0,
        r matches Some(i) ==> i < len,
{
    (0..len).choose(&mut rand::thread_rng())
}

/// Whether `text` is a valid absolute URL.
pub uninterp spec fn url_parses(text: Seq<char>) -> bool;

/// Relies on url's `Url::parse`: whether it accepts a text depends on the
/// text alone.
#[verifier::external_body]
fn parses_as_url(text: &str) -> (r: bool)
    ensures
        r == url_parses(text@),
{
    url::Url::parse(text).is_ok()
}

/// A picture found by a search.
#[derive(Debug)]
pub struct Gif {
    pub url: String,
    pub alt_text: String,
}

/// A message ready to post.
#[derive(Debug)]
pub enum Message {
    /// A line of text.
    Text { text: String },
    /// A header line above a picture.
    Picture { header: String, image_url: String, alt_text: String, title: String },
}

/// Why a message could not be built.
#[derive(Debug)]
pub enum MessageError {
    /// The picture's address is not a valid URL.
    InvalidImageUrl { url: String },
}

/// The description a picture gets: its own, or the search term that found
/// it when it has none.
pub open spec fn picture_alt_text(gif_alt: Seq<char>, search: Seq<char>) -> Seq<char> {
    if gif_alt.len() == 0 {
        search
    } else {
        gif_alt
    }
}

/// A message with `header` above the picture `gif`, which the search
/// `search` found; it fails when the picture's address is not a valid URL.
pub fn picture_message(header: &String, search: &String, gif: Gif) -> (r: Result<
    Message,
    MessageError,
>)
    ensures
        r is Ok <==> url_parses(gif.url@),
        r matches Ok(Message::Picture { header: h, image_url, alt_text, title }) ==> h@ == header@
            && image_url@ == gif.url@ && alt_text@ == picture_alt_text(gif.alt_text@, search@)
            && title@ == PICTURE_TITLE@,
        r is Ok ==> r->Ok_0 is Picture,
        r matches Err(MessageError::InvalidImageUrl { url }) ==> url@ == gif.url@,
{
    if !parses_as_url(gif.url.as_str()) {
        return Err(MessageError::InvalidImageUrl { url: gif.url });
    }
    let alt_text = if gif.alt_text.as_str().unicode_len() == 0 {
        search.clone()
    } else {
        gif.alt_text
    };
    Ok(
        Message::Picture {
            header: header.clone(),
            image_url: gif.url,
            alt_text,
            title: PICTURE_TITLE.to_string(),
        },
    )
}

/// Builds the messages for one configuration.
pub struct MessageBuilder<'a> {
    cfg: &'a Config,
}

impl<'a> MessageBuilder<'a> {
    /// The configuration messages are drawn from.
    pub closed spec fn config(&self) -> Config {
        *self.cfg
    }

    pub fn new(cfg: &'a Config) -> (r: MessageBuilder<'a>)
        ensures
            r.config() == *cfg,
    {
        MessageBuilder { cfg }
    }

    /// One of the configured lines of text, drawn at random.
    pub fn get_message(&self) -> (r: &'a String)
        requires
            self.config().messages.len() > 0,
        ensures
            exists|i: int| 0 <= i < self.config().messages.len() && *r == self.config().messages[i],
    {
        let messages = &self.cfg.messages;
        match random_index(messages.len()) {
            Some(i) => &messages[i],
            None => &messages[0],
        }
    }

    /// One of the configured picture searches, drawn at random.
    pub fn get_search(&self) -> (r: &'a String)
        requires
            self.config().gif_searches.len() > 0,
        ensures
            exists|i: int|
                0 <= i < self.config().gif_searches.len() && *r == self.config().gif_searches[i],
    {
        let searches = &self.cfg.gif_searches;
        match random_index(searches.len()) {
            Some(i) => &searches[i],
            None => &searches[0],
        }
    }

    /// A message of one configured line of text, drawn at random.
    pub fn text_message(&self) -> (r: Message)
        requires
            self.config().messages.len() > 0,
        ensures
            r matches Message::Text { text } && exists|i: int|
                0 <= i < self.config().messages.len() && text@ == self.config().messages[i]@,
    {
        let text = self.get_message();
        Message::Text { text: text.clone() }
    }
}

} // verus!
