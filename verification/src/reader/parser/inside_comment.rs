//! The handler for comments.

use vstd::prelude::*;
use vstd::string::*;
use crate::reader::error::{Error, SyntaxError};
use crate::reader::events::XmlEvent;
use crate::reader::lexer::Token;
use crate::reader::parser::{take_string, PullParser, State};

verus! {

impl PullParser {
    /// Handles a token within a comment.  The end of the comment gives the
    /// comment as an event, unless comments are dropped; every other token
    /// is part of the comment.
    pub fn inside_comment(&mut self, t: Token) -> (r: Option<Result<XmlEvent, Error>>)
        requires
            old(self).ready(),
            old(self).state() == State::InsideComment,
        ensures
            Self::stepped(*old(self), *final(self), t, r),
            Self::follows(*final(self), r, crate::reader::parser::model::inside_comment(old(self).model(), t)),
            final(self).drops_comments() == old(self).drops_comments(),
            match r {
                None => if t == Token::CommentEnd {
                    old(self).drops_comments() && final(self).state() == State::OutsideTag && final(self).gathered()
                        == old(self).gathered()
                } else {
                    final(self).state() == State::InsideComment && final(self).gathered() == (if old(self).drops_comments() {
                        old(self).gathered()
                    } else {
                        old(self).gathered() + t.data_text()
                    })
                },
                Some(Ok(XmlEvent::Comment(data))) => t == Token::CommentEnd && !old(self).drops_comments() && data@
                    == old(self).gathered() && final(self).state() == State::OutsideTag && final(self).gathered().len() == 0,
                Some(Ok(_)) => false,
                Some(Err(_)) => t != Token::CommentEnd && !old(self).drops_comments() && old(self).gathered().len()
                    > old(self).data_limit(),
            },
    {
        match t {
            Token::CommentEnd => {
                self.st = State::OutsideTag;
                if self.config.ignore_comments {
                    None
                } else {
                    let data = take_string(&mut self.buf);
                    Some(Ok(XmlEvent::Comment(data)))
                }
            },
            _ => {
                if self.config.ignore_comments {
                    // The buffer may hold text that goes on after the comment.
                    None
                } else {
                    if self.buf.len() > self.config.max_data_length {
                        return Some(self.error(SyntaxError::ExceededConfiguredLimit));
                    }
                    t.push_to_chars(&mut self.buf);
                    None
                }
            },
        }
    }
}

} // verus!
