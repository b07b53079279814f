//! The lines that tell the user how a fetch ended.
//!
//! A failure is reported with the file it concerns, the status where the
//! server gave one, and the text of the underlying error where there is
//! one.  A 404 has a message of its own.

use crate::status::{FetchError, IoStep};
use crate::target::{DownloadTarget, TargetView};
use vstd::prelude::*;
use vstd::string::*;

verus! {

/// The character for a digit below ten.
pub open spec fn digit(d: nat) -> char {
    if d == 0 {
        '0'
    } else if d == 1 {
        '1'
    } else if d == 2 {
        '2'
    } else if d == 3 {
        '3'
    } else if d == 4 {
        '4'
    } else if d == 5 {
        '5'
    } else if d == 6 {
        '6'
    } else if d == 7 {
        '7'
    } else if d == 8 {
        '8'
    } else {
        '9'
    }
}

/// `n` in decimal, without leading zeros.
pub open spec fn decimal(n: nat) -> Seq<char>
    decreases n,
{
    if n < 10 {
        seq![digit(n)]
    } else {
        decimal(n / 10).push(digit(n % 10))
    }
}

/// The line printed when a file was saved.
pub open spec fn saved_text(target: TargetView, bytes: u64) -> Seq<char> {
    "Download do arquivo '"@ + target.identifier + "' para '"@ + target.local_path() + "' ("@
        + decimal(bytes as nat) + " bytes) concluído com sucesso!"@
}

/// The diagnostic for a failed fetch.  `detail` is the text of the
/// underlying error; a 404 is described without it.
pub open spec fn failure_text(
    target: TargetView,
    error: FetchError,
    detail: Seq<char>,
) -> Seq<char> {
    match error {
        FetchError::Transport => "Falha ao enviar requisição GET para a URL '"@
            + target.remote_address() + "': "@ + detail,
        FetchError::NotFound => "Arquivo '"@ + target.identifier + "' não encontrado na URL '"@
            + target.remote_address() + "'. O servidor retornou 404 Not Found."@,
        FetchError::HttpStatus { status } => "Erro HTTP ao tentar baixar o arquivo '"@
            + target.identifier + "' da URL '"@ + target.remote_address() + "'. Status: Some("@
            + decimal(status as nat) + "). Detalhes: "@ + detail,
        FetchError::LocalIo { step: IoStep::CreateDirectory } => "Falha ao criar o diretório '"@
            + target.local_directory() + "': "@ + detail,
        FetchError::LocalIo { step: IoStep::CreateFile } => "Falha ao criar o arquivo local '"@
            + target.local_path() + "': "@ + detail,
        FetchError::LocalIo { step: IoStep::CopyBody } =>
            "Falha ao copiar o conteúdo baixado para o arquivo '"@ + target.local_path() + "': "@
            + detail,
    }
}

fn digit_text(d: u64) -> (text: &'static str)
    requires
        d < 10,
    ensures
        text@ == seq![digit(d as nat)],
{
    proof {
        reveal_strlit("0");
        reveal_strlit("1");
        reveal_strlit("2");
        reveal_strlit("3");
        reveal_strlit("4");
        reveal_strlit("5");
        reveal_strlit("6");
        reveal_strlit("7");
        reveal_strlit("8");
        reveal_strlit("9");
    }
    let text = if d == 0 {
        "0"
    } else if d == 1 {
        "1"
    } else if d == 2 {
        "2"
    } else if d == 3 {
        "3"
    } else if d == 4 {
        "4"
    } else if d == 5 {
        "5"
    } else if d == 6 {
        "6"
    } else if d == 7 {
        "7"
    } else if d == 8 {
        "8"
    } else {
        "9"
    };
    assert(text@ =~= seq![digit(d as nat)]);
    text
}

/// Appends `n` in decimal to `text`.
pub fn append_decimal(text: &mut String, n: u64)
    ensures
        final(text)@ == old(text)@ + decimal(n as nat),
    decreases n,
{
    if n >= 10 {
        append_decimal(text, n / 10);
    }
    text.append(digit_text(n % 10));
    proof {
        if n >= 10 {
            assert(old(text)@ + decimal(n as nat / 10) + seq![digit(n as nat % 10)] =~= old(text)@
                + decimal(n as nat));
        }
    }
}

/// `n` in decimal.
pub fn decimal_text(n: u64) -> (text: String)
    ensures
        text@ == decimal(n as nat),
{
    let mut text = String::new();
    append_decimal(&mut text, n);
    assert(Seq::<char>::empty() + decimal(n as nat) =~= decimal(n as nat));
    text
}

/// The line to print when `target` was saved with `bytes` bytes.
pub fn saved_message(target: &DownloadTarget, bytes: u64) -> (message: String)
    ensures
        message@ == saved_text(target@, bytes),
{
    let mut message = String::from_str("Download do arquivo '");
    message.append(target.identifier.as_str());
    message.append("' para '");
    message.append(target.local_path().as_str());
    message.append("' (");
    append_decimal(&mut message, bytes);
    message.append(" bytes) concluído com sucesso!");
    message
}

/// The diagnostic to give when the fetch of `target` failed with `error`.
/// `detail` is the text of the underlying error, where the caller has one.
pub fn failure_message(
    target: &DownloadTarget,
    error: FetchError,
    detail: &str,
) -> (message: String)
    ensures
        message@ == failure_text(target@, error, detail@),
{
    match error {
        FetchError::Transport => {
            let mut message = String::from_str("Falha ao enviar requisição GET para a URL '");
            message.append(target.remote_address().as_str());
            message.append("': ");
            message.append(detail);
            message
        },
        FetchError::NotFound => {
            let mut message = String::from_str("Arquivo '");
            message.append(target.identifier.as_str());
            message.append("' não encontrado na URL '");
            message.append(target.remote_address().as_str());
            message.append("'. O servidor retornou 404 Not Found.");
            message
        },
        FetchError::HttpStatus { status } => {
            let mut message = String::from_str("Erro HTTP ao tentar baixar o arquivo '");
            message.append(target.identifier.as_str());
            message.append("' da URL '");
            message.append(target.remote_address().as_str());
            message.append("'. Status: Some(");
            append_decimal(&mut message, status as u64);
            message.append("). Detalhes: ");
            message.append(detail);
            message
        },
        FetchError::LocalIo { step } => {
            let mut message = match step {
                IoStep::CreateDirectory => {
                    let mut start = String::from_str("Falha ao criar o diretório '");
                    start.append(target.local_directory().as_str());
                    start
                },
                IoStep::CreateFile => {
                    let mut start = String::from_str("Falha ao criar o arquivo local '");
                    start.append(target.local_path().as_str());
                    start
                },
                IoStep::CopyBody => {
                    let mut start = String::from_str(
                        "Falha ao copiar o conteúdo baixado para o arquivo '",
                    );
                    start.append(target.local_path().as_str());
                    start
                },
            };
            message.append("': ");
            message.append(detail);
            message
        },
    }
}

/// The message for a 404 differs from the message for any other error
/// status, whatever the target and the detail.
pub proof fn not_found_message_is_distinct(
    target: TargetView,
    status: u16,
    detail: Seq<char>,
    other_detail: Seq<char>,
)
    ensures
        failure_text(target, FetchError::NotFound, detail) != failure_text(
            target,
            FetchError::HttpStatus { status },
            other_detail,
        ),
{
    reveal_strlit("Arquivo '");
    reveal_strlit("Erro HTTP ao tentar baixar o arquivo '");
    let not_found = failure_text(target, FetchError::NotFound, detail);
    let other = failure_text(target, FetchError::HttpStatus { status }, other_detail);
    assert(not_found[0] == 'A');
    assert(other[0] == 'E');
}

} // verus!
