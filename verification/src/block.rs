//! Documents and the code blocks extracted from them.

use vstd::prelude::*;
use vstd::string::*;

verus! {

/// One collected documentation file: where it was found (used only for
/// reporting) and its complete raw text.
pub struct Document {
    pub path: String,
    pub body: String,
}

/// Mathematical image of a code block: the info string of its opening
/// fence and the ordered fragments of its body.
pub struct BlockModel {
    pub annotation: Seq<char>,
    pub texts: Seq<Seq<char>>,
}

impl BlockModel {
    /// The block's body: the concatenation of its fragments in order.
    pub open spec fn text(self) -> Seq<char> {
        self.texts.flatten()
    }
}

/// One fenced code region reconstructed from a document: the annotation of
/// its fences and the text fragments emitted between them.
pub struct CodeBlock {
    pub annotation: String,
    pub texts: Vec<String>,
}

impl View for CodeBlock {
    type V = BlockModel;

    open spec fn view(&self) -> BlockModel {
        BlockModel {
            annotation: self.annotation@,
            texts: self.texts@.map_values(|t: String| t@),
        }
    }
}

impl CodeBlock {
    /// The block's body: all fragments joined in their original order.
    pub fn text(&self) -> (r: String)
        ensures
            r@ == self@.text(),
    {
        let ghost frags = self@.texts;
        if self.texts.len() == 0 {
            proof {
                assert(frags =~= Seq::<Seq<char>>::empty());
            }
            String::new()
        } else if self.texts.len() == 1 {
            proof {
                frags.lemma_flatten_one_element();
            }
            self.texts[0].clone()
        } else {
            let mut joined = String::new();
            let mut i: usize = 0;
            while i < self.texts.len()
                invariant
                    i <= self.texts.len(),
                    frags == self@.texts,
                    frags.len() == self.texts.len(),
                    joined@ == frags.take(i as int).flatten(),
                decreases self.texts.len() - i,
            {
                proof {
                    assert(frags.take(i + 1) =~= frags.take(i as int).push(frags[i as int]));
                    frags.take(i as int).lemma_flatten_push(frags[i as int]);
                }
                joined.append(self.texts[i].as_str());
                i = i + 1;
            }
            proof {
                assert(frags.take(self.texts.len() as int) =~= frags);
            }
            joined
        }
    }
}

/// Re-serialize an annotation and a body with the fence convention the
/// extractor understands: an opening fence carrying the annotation, then
/// the body, then a closing fence on a line of its own.
pub fn fence_block(annotation: &str, body: &str) -> (r: String)
    ensures
        r@ == "```"@ + annotation@ + "\n"@ + body@ + "```"@ + "\n"@,
{
    let mut r = "```".to_owned();
    r.append(annotation);
    r.append("\n");
    r.append(body);
    r.append("```");
    r.append("\n");
    r
}

} // verus!
