//! Chat prompt templates of the supported architectures.
use vstd::prelude::*;

verus! {

/// Whether two strings hold the same characters.
pub fn same_text(a: &str, b: &str) -> (r: bool)
    ensures
        r == (a@ == b@),
{
    let n = a.unicode_len();
    if n != b.unicode_len() {
        return false;
    }
    let mut i: usize = 0;
    while i < n
        invariant
            n == a@.len(),
            n == b@.len(),
            i <= n,
            forall|k: int| 0 <= k < i ==> a@[k] == b@[k],
        decreases n - i,
    {
        if a.get_char(i) != b.get_char(i) {
            return false;
        }
        i = i + 1;
    }
    assert(a@ =~= b@);
    true
}

/// The system block of a Llama 3 prompt; empty without a system message.
pub open spec fn llama3_system(sys: Seq<char>) -> Seq<char> {
    if sys.len() > 0 {
        "<|start_header_id|>system<|end_header_id|>\n\n"@ + sys + "<|eot_id|>"@
    } else {
        Seq::empty()
    }
}

/// The instruction of a Mistral prompt.
pub open spec fn mistral_body(sys: Seq<char>, raw: Seq<char>) -> Seq<char> {
    if sys.len() > 0 {
        "System: "@ + sys + "\n\nUser: "@ + raw
    } else {
        raw
    }
}

/// The instruction of a Phi prompt.
pub open spec fn phi_body(sys: Seq<char>, raw: Seq<char>) -> Seq<char> {
    if sys.len() > 0 {
        sys + " "@ + raw
    } else {
        raw
    }
}

/// The prompt that model `model` is given for the user message `raw` and
/// the system message `sys` (empty where there is none).
pub open spec fn chat_template(model: Seq<char>, raw: Seq<char>, sys: Seq<char>) -> Seq<char> {
    if model == "llama3"@ {
        "<|begin_of_text|>"@ + llama3_system(sys) + "<|start_header_id|>user<|end_header_id|>\n\n"@
            + raw + "<|eot_id|><|start_header_id|>assistant<|end_header_id|>\n\n"@
    } else if model == "mistral"@ {
        "<s>[INST] "@ + mistral_body(sys, raw) + " [/INST]"@
    } else if model == "phi"@ {
        "Instruct: "@ + phi_body(sys, raw) + "\nOutput:"@
    } else {
        raw
    }
}

/// Renders a user message, and the system message if any, in the chat
/// format of `model_name`'s architecture; other names get the message as it
/// is.
pub fn apply_chat_template(model_name: &str, raw_prompt: &str, system_prompt: Option<String>) -> (r:
    String)
    ensures
        r@ == chat_template(
            model_name@,
            raw_prompt@,
            match system_prompt {
                Some(s) => s@,
                None => Seq::empty(),
            },
        ),
{
    let sys_msg = match system_prompt {
        Some(s) => s,
        None => String::new(),
    };
    let has_sys = sys_msg.as_str().unicode_len() > 0;
    let mut out = String::new();
    if same_text(model_name, "llama3") {
        out.append("<|begin_of_text|>");
        if has_sys {
            out.append("<|start_header_id|>system<|end_header_id|>\n\n");
            out.append(sys_msg.as_str());
            out.append("<|eot_id|>");
        }
        out.append("<|start_header_id|>user<|end_header_id|>\n\n");
        out.append(raw_prompt);
        out.append("<|eot_id|><|start_header_id|>assistant<|end_header_id|>\n\n");
        proof {
            assert(out@ =~= chat_template(model_name@, raw_prompt@, sys_msg@));
        }
    } else if same_text(model_name, "mistral") {
        out.append("<s>[INST] ");
        if has_sys {
            out.append("System: ");
            out.append(sys_msg.as_str());
            out.append("\n\nUser: ");
        }
        out.append(raw_prompt);
        out.append(" [/INST]");
        proof {
            assert(out@ =~= chat_template(model_name@, raw_prompt@, sys_msg@));
        }
    } else if same_text(model_name, "phi") {
        out.append("Instruct: ");
        if has_sys {
            out.append(sys_msg.as_str());
            out.append(" ");
        }
        out.append(raw_prompt);
        out.append("\nOutput:");
        proof {
            assert(out@ =~= chat_template(model_name@, raw_prompt@, sys_msg@));
        }
    } else {
        out.append(raw_prompt);
        proof {
            assert(out@ =~= raw_prompt@);
        }
    }
    out
}

} // verus!
