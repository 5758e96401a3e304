//! A canned chatbot that offers candidate replies, and a transcript logger.
use vstd::prelude::*;
use vstd::string::*;

verus! {

/// The texts of a list of strings.
pub open spec fn texts(v: Seq<String>) -> Seq<Seq<char>> {
    v.map_values(|s: String| s@)
}

/// The candidate replies to the most recent message: two that quote it and
/// sign with the emoji, and two that point at the first and the last document.
pub open spec fn reply_candidates(
    recent: Seq<char>,
    emoji: Seq<char>,
    first_doc: Seq<char>,
    last_doc: Seq<char>,
) -> Seq<Seq<char>> {
    seq![
        "\""@ + recent + "\"? And how does that make you feel? "@ + emoji,
        "\""@ + recent + "\"! Interesting! Go on... "@ + emoji,
        "Have you considered: "@ + first_doc,
        "I might recommend: "@ + last_doc,
    ]
}

/// A chatbot that signs its replies with its emojis, taking them in turn.
pub struct Chatbot {
    emojis: Vec<String>,
    emoji_counter: usize,
}

impl Chatbot {
    /// The emojis, in the order they are used.
    pub closed spec fn emojis(&self) -> Seq<Seq<char>> {
        texts(self.emojis@)
    }

    /// Which emoji signs the next reply.
    pub closed spec fn turn(&self) -> nat {
        self.emoji_counter as nat
    }

    pub closed spec fn wf(&self) -> bool {
        self.emojis@.len() == 0 || self.emoji_counter < self.emojis@.len()
    }

    /// Creates a new chatbot that uses the provided emoji in its responses.
    pub fn new(emojis: Vec<String>) -> (r: Self)
        ensures
            r.wf(),
            r.emojis() == texts(emojis@),
            r.turn() == 0,
    {
        Chatbot { emojis, emoji_counter: 0 }
    }

    /// How many emojis the chatbot signs with.
    pub fn emoji_count(&self) -> (r: usize)
        ensures
            r == self.emojis().len(),
    {
        self.emojis.len()
    }

    /// The documents to draw on for a conversation: always the same two files.
    pub fn retrieval_documents(&self, messages: &[String]) -> (r: Vec<String>)
        ensures
            texts(r@) == seq!["data/doc1.txt"@, "data/doc2.txt"@],
    {
        let mut r: Vec<String> = Vec::new();
        r.push("data/doc1.txt".to_owned());
        r.push("data/doc2.txt".to_owned());
        assert(texts(r@) =~= seq!["data/doc1.txt"@, "data/doc2.txt"@]);
        r
    }

    /// The possible responses to a conversation, given the texts of its
    /// documents; the next emoji's turn comes after.
    pub fn query_chat(&mut self, messages: &[String], docs: &[String]) -> (r: Vec<String>)
        requires
            old(self).wf(),
            old(self).emojis().len() > 0,
            messages@.len() > 0,
            docs@.len() > 0,
        ensures
            final(self).wf(),
            final(self).emojis() == old(self).emojis(),
            final(self).turn() as int == (old(self).turn() as int + 1) % (old(self).emojis().len() as int),
            texts(r@) == reply_candidates(
                messages@.last()@,
                old(self).emojis()[old(self).turn() as int],
                docs@[0]@,
                docs@.last()@,
            ),
    {
        let most_recent = messages[messages.len() - 1].as_str();
        let emoji = self.emojis[self.emoji_counter].as_str();
        let first_doc = docs[0].as_str();
        let last_doc = docs[docs.len() - 1].as_str();

        let mut feel = String::new();
        feel.append("\"");
        feel.append(most_recent);
        feel.append("\"? And how does that make you feel? ");
        feel.append(emoji);

        let mut go_on = String::new();
        go_on.append("\"");
        go_on.append(most_recent);
        go_on.append("\"! Interesting! Go on... ");
        go_on.append(emoji);

        let mut considered = String::new();
        considered.append("Have you considered: ");
        considered.append(first_doc);

        let mut recommend = String::new();
        recommend.append("I might recommend: ");
        recommend.append(last_doc);

        let n = self.emojis.len();
        assert(self.emoji_counter < n);
        self.emoji_counter = (self.emoji_counter + 1) % n;

        let mut r: Vec<String> = Vec::new();
        r.push(feel);
        r.push(go_on);
        r.push(considered);
        r.push(recommend);
        assert(texts(r@) =~= reply_candidates(most_recent@, emoji@, first_doc@, last_doc@));
        r
    }
}

/// All the lines of a transcript, one after another with a line feed between.
pub open spec fn joined(lines: Seq<Seq<char>>) -> Seq<char>
    decreases lines.len(),
{
    if lines.len() == 0 {
        Seq::empty()
    } else if lines.len() == 1 {
        lines[0]
    } else {
        joined(lines.drop_last()) + seq!['\n'] + lines.last()
    }
}

/// Holds chat messages, to be written to storage every third one.
pub struct Logger {
    logs: Vec<String>,
}

impl Logger {
    /// The messages so far, oldest first.
    pub closed spec fn logs(&self) -> Seq<Seq<char>> {
        texts(self.logs@)
    }

    /// A logger with no messages.
    pub fn new() -> (r: Self)
        ensures
            r.logs() == Seq::<Seq<char>>::empty(),
    {
        let r = Logger { logs: Vec::new() };
        assert(r.logs() =~= Seq::<Seq<char>>::empty());
        r
    }

    /// Saves the message to the logger.
    pub fn append(&mut self, message: &str)
        ensures
            final(self).logs() == old(self).logs().push(message@),
    {
        self.logs.push(message.to_owned());
        assert(self.logs() =~= old(self).logs().push(message@));
    }

    /// Whether the transcript is due to be written: every third message.
    pub fn needs_saving(&self) -> (r: bool)
        ensures
            r == (self.logs().len() % 3 == 0),
    {
        self.logs.len() % 3 == 0
    }

    /// The transcript as it is written: the messages, one per line.
    pub fn contents(&self) -> (r: String)
        ensures
            r@ == joined(self.logs()),
    {
        let ghost lines = self.logs();
        let mut out = String::new();
        let mut i: usize = 0;
        while i < self.logs.len()
            invariant
                i <= self.logs@.len(),
                lines == texts(self.logs@),
                out@ == joined(lines.take(i as int)),
            decreases self.logs@.len() - i,
        {
            if i > 0 {
                out.append("\n");
                proof {
                    reveal_strlit("\n");
                }
            }
            out.append(self.logs[i].as_str());
            assert(lines.take(i + 1).drop_last() =~= lines.take(i as int));
            i = i + 1;
        }
        assert(lines.take(lines.len() as int) =~= lines);
        out
    }
}

impl Default for Logger {
    fn default() -> (r: Self)
        ensures
            r.logs() == Seq::<Seq<char>>::empty(),
    {
        Logger::new()
    }
}

} // verus!
