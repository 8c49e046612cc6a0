//! The bot's configuration, read once at startup and only read after that.

use crate::schedule::Cron;
use vstd::prelude::*;
use vstd::utf8::encode_utf8;

verus! {

/// Everything the bot is configured with. Optional parts switch features on:
/// the command listener with `socket_token`, pictures with `giphy_token`.
pub struct Config {
    pub token: String,
    pub socket_token: Option<String>,
    pub giphy_token: Option<String>,
    pub crons: Vec<Cron>,
    pub channel_id: String,
    pub messages: Vec<String>,
    pub gif_searches: Vec<String>,
    pub log: String,
}

/// Why a configuration cannot be used.
#[derive(Debug, PartialEq, Eq, Structural)]
pub enum ConfigError {
    /// There is no line of text to post.
    NoMessages,
    /// Pictures are switched on but there is nothing to search for.
    NoGifSearches,
}

/// The text of a decimal digit.
pub open spec fn digit_text(d: nat) -> Seq<char> {
    if d == 0 {
        "0"@
    } else if d == 1 {
        "1"@
    } else if d == 2 {
        "2"@
    } else if d == 3 {
        "3"@
    } else if d == 4 {
        "4"@
    } else if d == 5 {
        "5"@
    } else if d == 6 {
        "6"@
    } else if d == 7 {
        "7"@
    } else if d == 8 {
        "8"@
    } else {
        "9"@
    }
}

/// `n` written in decimal, without leading zeros.
pub open spec fn decimal(n: nat) -> Seq<char>
    decreases n,
{
    if n < 10 {
        digit_text(n)
    } else {
        decimal(n / 10) + digit_text(n % 10)
    }
}

/// `items` one after another, with `sep` between each two.
pub open spec fn joined(items: Seq<Seq<char>>, sep: Seq<char>) -> Seq<char>
    decreases items.len(),
{
    if items.len() == 0 {
        seq![]
    } else if items.len() == 1 {
        items[0]
    } else {
        joined(items.drop_last(), sep) + sep + items.last()
    }
}

/// The length in bytes of the UTF-8 encoding of `s`, as `str::len` gives it.
pub open spec fn byte_len(s: Seq<char>) -> nat {
    (encode_utf8(s).len() as usize) as nat
}

pub open spec fn texts_of(items: Seq<String>) -> Seq<Seq<char>> {
    items.map_values(|s: String| s@)
}

pub open spec fn cron_texts(crons: Seq<Cron>) -> Seq<Seq<char>> {
    crons.map_values(|c: Cron| c.text())
}

fn digit(d: usize) -> (r: &'static str)
    requires
        d < 10,
    ensures
        r@ == digit_text(d as nat),
{
    if d == 0 {
        "0"
    } else if d == 1 {
        "1"
    } else if d == 2 {
        "2"
    } else if d == 3 {
        "3"
    } else if d == 4 {
        "4"
    } else if d == 5 {
        "5"
    } else if d == 6 {
        "6"
    } else if d == 7 {
        "7"
    } else if d == 8 {
        "8"
    } else {
        "9"
    }
}

fn append_decimal(out: &mut String, n: usize)
    ensures
        final(out)@ == old(out)@ + decimal(n as nat),
    decreases n,
{
    if n >= 10 {
        append_decimal(out, n / 10);
    }
    out.append(digit(n % 10));
    proof {
        assert(old(out)@ + decimal((n / 10) as nat) + digit_text((n % 10) as nat) =~= old(out)@ + (
        decimal((n / 10) as nat) + digit_text((n % 10) as nat)));
    }
}

fn append_joined(out: &mut String, items: &Vec<String>)
    ensures
        final(out)@ == old(out)@ + joined(texts_of(items@), ", "@),
{
    let ghost start = out@;
    let mut i: usize = 0;
    while i < items.len()
        invariant
            i <= items.len(),
            out@ == start + joined(texts_of(items@).take(i as int), ", "@),
        decreases items.len() - i,
    {
        proof {
            let t = texts_of(items@);
            assert(t.take(i + 1).drop_last() =~= t.take(i as int));
            assert(t.take(i + 1).last() == items[i as int]@);
        }
        if i > 0 {
            out.append(", ");
        }
        out.append(items[i].as_str());
        proof {
            let t = texts_of(items@);
            if i == 0 {
                assert(joined(t.take(0), ", "@) =~= Seq::<char>::empty());
                assert(start + Seq::<char>::empty() =~= start);
            } else {
                assert(start + joined(t.take(i as int), ", "@) + ", "@ + items[i as int]@ =~= start + (
                joined(t.take(i as int), ", "@) + ", "@ + items[i as int]@));
            }
        }
        i = i + 1;
    }
    proof {
        assert(texts_of(items@).take(items.len() as int) =~= texts_of(items@));
    }
}

fn append_cron_texts(out: &mut String, crons: &Vec<Cron>)
    ensures
        final(out)@ == old(out)@ + joined(cron_texts(crons@), ", "@),
{
    let ghost start = out@;
    let mut i: usize = 0;
    while i < crons.len()
        invariant
            i <= crons.len(),
            out@ == start + joined(cron_texts(crons@).take(i as int), ", "@),
        decreases crons.len() - i,
    {
        proof {
            let t = cron_texts(crons@);
            assert(t.take(i + 1).drop_last() =~= t.take(i as int));
            assert(t.take(i + 1).last() == crons[i as int].text());
        }
        if i > 0 {
            out.append(", ");
        }
        out.append(crons[i].source().as_str());
        proof {
            let t = cron_texts(crons@);
            if i == 0 {
                assert(joined(t.take(0), ", "@) =~= Seq::<char>::empty());
                assert(start + Seq::<char>::empty() =~= start);
            } else {
                assert(start + joined(t.take(i as int), ", "@) + ", "@ + crons[i as int].text()
                    =~= start + (joined(t.take(i as int), ", "@) + ", "@ + crons[i as int].text()));
            }
        }
        i = i + 1;
    }
    proof {
        assert(cron_texts(crons@).take(crons.len() as int) =~= cron_texts(crons@));
    }
}

impl Config {
    /// A configuration the bot can post from: it has lines of text, and
    /// search terms when pictures are switched on.
    pub open spec fn is_usable(&self) -> bool {
        self.messages.len() > 0 && (self.giphy_token is Some ==> self.gif_searches.len() > 0)
    }

    /// Checks that the bot can post from this configuration.
    pub fn check(&self) -> (r: Result<(), ConfigError>)
        ensures
            r is Ok <==> self.is_usable(),
            r == Err::<(), ConfigError>(ConfigError::NoMessages) <==> self.messages.len() == 0,
            r == Err::<(), ConfigError>(ConfigError::NoGifSearches) <==> self.messages.len() > 0
                && self.giphy_token is Some && self.gif_searches.len() == 0,
    {
        if self.messages.len() == 0 {
            Err(ConfigError::NoMessages)
        } else if self.giphy_token.is_some() && self.gif_searches.len() == 0 {
            Err(ConfigError::NoGifSearches)
        } else {
            Ok(())
        }
    }

    /// The configuration as one line for the logs, with each secret token
    /// reduced to its length in bytes (UTF-8).
    pub open spec fn summary_text(&self) -> Seq<char> {
        "{ token: (len:"@ + decimal(byte_len(self.token@)) + "), crons: ["@ + joined(
            cron_texts(self.crons@),
            ", "@,
        ) + "], messages: ["@ + joined(texts_of(self.messages@), ", "@) + "], log: \""@ + self.log@
            + "\" "@ + match self.socket_token {
            Some(t) => "socket_token: (len: "@ + decimal(byte_len(t@)) + ") "@,
            None => Seq::<char>::empty(),
        } + match self.giphy_token {
            Some(_) => "gif_searches: ["@ + joined(texts_of(self.gif_searches@), ", "@) + "] "@,
            None => Seq::<char>::empty(),
        } + "}"@
    }

    /// The configuration as one line for the logs; secrets show only their
    /// length.
    pub fn summary(&self) -> (r: String)
        ensures
            r@ == self.summary_text(),
    {
        let mut out = String::new();
        out.append("{ token: (len:");
        append_decimal(&mut out, self.token.as_str().len());
        out.append("), crons: [");
        append_cron_texts(&mut out, &self.crons);
        out.append("], messages: [");
        append_joined(&mut out, &self.messages);
        out.append("], log: \"");
        out.append(self.log.as_str());
        out.append("\" ");
        match &self.socket_token {
            Some(t) => {
                out.append("socket_token: (len: ");
                append_decimal(&mut out, t.as_str().len());
                out.append(") ");
            },
            None => {},
        }
        match &self.giphy_token {
            Some(_) => {
                out.append("gif_searches: [");
                append_joined(&mut out, &self.gif_searches);
                out.append("] ");
            },
            None => {},
        }
        out.append("}");
        proof {
            assert(out@ =~= self.summary_text());
        }
        out
    }
}

} // verus!
