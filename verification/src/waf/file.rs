//! File signatures in request bodies.
use crate::text::{has_prefix, text_eq};
use vstd::prelude::*;

verus! {

/// `MZ`: a DOS or Windows executable.
pub open spec fn dos_magic() -> Seq<u8> {
    seq![0x4Du8, 0x5Au8]
}

/// `\x7FELF`: an ELF executable.
pub open spec fn elf_magic() -> Seq<u8> {
    seq![0x7Fu8, 0x45u8, 0x4Cu8, 0x46u8]
}

/// `#!/`: a script with an interpreter line.
pub open spec fn shebang() -> Seq<u8> {
    seq![0x23u8, 0x21u8, 0x2Fu8]
}

/// `<?php`: a PHP script.
pub open spec fn php_open_tag() -> Seq<u8> {
    seq![0x3Cu8, 0x3Fu8, 0x70u8, 0x68u8, 0x70u8]
}

/// Why a body is refused for its first bytes, if it is.
pub open spec fn magic_refusal(body: Seq<u8>) -> Option<Seq<char>> {
    if body.len() < 4 {
        None
    } else if crate::text::begins_with(body, dos_magic()) {
        Some("Executable file upload blocked (.exe/.dll)"@)
    } else if crate::text::begins_with(body, elf_magic()) {
        Some("ELF executable upload blocked"@)
    } else if crate::text::begins_with(body, shebang()) || crate::text::begins_with(
        body,
        php_open_tag(),
    ) {
        Some("Script file upload blocked"@)
    } else {
        None
    }
}

/// The signature that a file of the content type begins with, for the types
/// that are checked.
pub open spec fn signature_of(content_type: Seq<char>) -> Option<Seq<u8>> {
    if content_type == "image/jpeg"@ {
        Some(seq![0xFFu8, 0xD8u8, 0xFFu8])
    } else if content_type == "image/png"@ {
        Some(seq![0x89u8, 0x50u8, 0x4Eu8, 0x47u8])
    } else if content_type == "image/gif"@ {
        Some(seq![0x47u8, 0x49u8, 0x46u8, 0x38u8])
    } else if content_type == "application/pdf"@ {
        Some(seq![0x25u8, 0x50u8, 0x44u8, 0x46u8])
    } else if content_type == "application/zip"@ {
        Some(seq![0x50u8, 0x4Bu8, 0x03u8, 0x04u8])
    } else {
        None
    }
}

/// Whether a body may stand under a content type.
pub open spec fn type_agrees(content_type: Seq<char>, body: Seq<u8>) -> bool {
    body.len() >= 4 ==> (signature_of(content_type) matches Some(sig)
        ==> crate::text::begins_with(body, sig))
}

/// Inspects the first few bytes of the payload to verify the actual file type.
/// Prevents uploading malicious scripts disguised as images or documents.
pub fn check_magic_number(body: &[u8]) -> (r: Result<(), &'static str>)
    ensures
        r is Ok == magic_refusal(body@) is None,
        r matches Err(reason) ==> magic_refusal(body@) == Some(reason@),
{
    // Too small to be a relevant file
    if body.len() < 4 {
        return Ok(());
    }
    let dos: [u8; 2] = [0x4D, 0x5A];
    assert(dos@ == dos_magic());
    if has_prefix(body, dos.as_slice()) {
        return Err("Executable file upload blocked (.exe/.dll)");
    }
    let elf: [u8; 4] = [0x7F, 0x45, 0x4C, 0x46];
    assert(elf@ == elf_magic());
    if has_prefix(body, elf.as_slice()) {
        return Err("ELF executable upload blocked");
    }
    let interpreter: [u8; 3] = [0x23, 0x21, 0x2F];
    assert(interpreter@ == shebang());
    let php: [u8; 5] = [0x3C, 0x3F, 0x70, 0x68, 0x70];
    assert(php@ == php_open_tag());
    if has_prefix(body, interpreter.as_slice()) || has_prefix(body, php.as_slice()) {
        return Err("Script file upload blocked");
    }
    Ok(())
}

/// Validates if the declared Content-Type matches the actual file signature.
pub fn is_allowed_file_type(content_type: &str, body: &[u8]) -> (r: bool)
    ensures
        r == type_agrees(content_type@, body@),
{
    if body.len() < 4 {
        return true;
    }
    if text_eq(content_type, "image/jpeg") {
        let sig: [u8; 3] = [0xFF, 0xD8, 0xFF];
        assert(sig@ == seq![0xFFu8, 0xD8u8, 0xFFu8]);
        has_prefix(body, sig.as_slice())
    } else if text_eq(content_type, "image/png") {
        let sig: [u8; 4] = [0x89, 0x50, 0x4E, 0x47];
        assert(sig@ == seq![0x89u8, 0x50u8, 0x4Eu8, 0x47u8]);
        has_prefix(body, sig.as_slice())
    } else if text_eq(content_type, "image/gif") {
        let sig: [u8; 4] = [0x47, 0x49, 0x46, 0x38];
        assert(sig@ == seq![0x47u8, 0x49u8, 0x46u8, 0x38u8]);
        has_prefix(body, sig.as_slice())
    } else if text_eq(content_type, "application/pdf") {
        let sig: [u8; 4] = [0x25, 0x50, 0x44, 0x46];
        assert(sig@ == seq![0x25u8, 0x50u8, 0x44u8, 0x46u8]);
        has_prefix(body, sig.as_slice())
    } else if text_eq(content_type, "application/zip") {
        let sig: [u8; 4] = [0x50, 0x4B, 0x03, 0x04];
        assert(sig@ == seq![0x50u8, 0x4Bu8, 0x03u8, 0x04u8]);
        has_prefix(body, sig.as_slice())
    } else {
        true
    }
}

/// A body of at least four bytes is refused for its first bytes if it begins like a
/// Windows or ELF executable or like a script, whatever follows.
pub proof fn executables_and_scripts_are_refused(rest: Seq<u8>)
    ensures
        rest.len() >= 2 ==> magic_refusal(seq![0x4Du8, 0x5Au8] + rest) == Some(
            "Executable file upload blocked (.exe/.dll)"@,
        ),
        magic_refusal(seq![0x7Fu8, 0x45u8, 0x4Cu8, 0x46u8] + rest) == Some(
            "ELF executable upload blocked"@,
        ),
        rest.len() >= 1 ==> magic_refusal(seq![0x23u8, 0x21u8, 0x2Fu8] + rest) == Some(
            "Script file upload blocked"@,
        ),
        magic_refusal(seq![0x3Cu8, 0x3Fu8, 0x70u8, 0x68u8, 0x70u8] + rest) == Some(
            "Script file upload blocked"@,
        ),
{
    let exe = seq![0x4Du8, 0x5Au8] + rest;
    let elf = seq![0x7Fu8, 0x45u8, 0x4Cu8, 0x46u8] + rest;
    let script = seq![0x23u8, 0x21u8, 0x2Fu8] + rest;
    let php = seq![0x3Cu8, 0x3Fu8, 0x70u8, 0x68u8, 0x70u8] + rest;
    assert(exe.take(2) == dos_magic());
    assert(elf.take(4) == elf_magic());
    assert(elf.take(2)[0] == 0x7F && dos_magic()[0] == 0x4D);
    assert(script.take(3) == shebang());
    assert(script.take(2)[0] == 0x23);
    assert(script.len() >= 4 ==> script.take(4)[0] == 0x23 && elf_magic()[0] == 0x7F);
    assert(php.take(5) == php_open_tag());
    assert(php.take(2)[0] == 0x3C);
    assert(php.take(4)[0] == 0x3C);
}

/// No other body is refused for its first bytes: not one of fewer than four bytes, nor
/// one that begins in none of the four ways.
pub proof fn other_bodies_have_no_magic(body: Seq<u8>)
    requires
        body.len() < 4 || {
            &&& !(body[0] == 0x4D && body[1] == 0x5A)
            &&& !(body[0] == 0x7F && body[1] == 0x45 && body[2] == 0x4C && body[3] == 0x46)
            &&& !(body[0] == 0x23 && body[1] == 0x21 && body[2] == 0x2F)
            &&& !(body.len() >= 5 && body[0] == 0x3C && body[1] == 0x3F && body[2] == 0x70
                && body[3] == 0x68 && body[4] == 0x70)
        },
    ensures
        magic_refusal(body) is None,
{
    if body.len() >= 4 {
        if body.take(2) == dos_magic() {
            assert(body[0] == dos_magic()[0] && body[1] == dos_magic()[1]);
        }
        if body.take(4) == elf_magic() {
            assert(body[0] == elf_magic()[0] && body[1] == elf_magic()[1] && body[2]
                == elf_magic()[2] && body[3] == elf_magic()[3]);
        }
        if body.take(3) == shebang() {
            assert(body[0] == shebang()[0] && body[1] == shebang()[1] && body[2] == shebang()[2]);
        }
        if body.len() >= 5 && body.take(5) == php_open_tag() {
            assert(body[0] == php_open_tag()[0] && body[1] == php_open_tag()[1] && body[2]
                == php_open_tag()[2] && body[3] == php_open_tag()[3] && body[4]
                == php_open_tag()[4]);
        }
    }
}

/// Images, PDF documents and ZIP archives have to begin with their signature; bodies of
/// fewer than four bytes and all other types are not held to any.
pub proof fn declared_types_need_their_signature(body: Seq<u8>, other: Seq<char>)
    requires
        other != "image/jpeg"@,
        other != "image/png"@,
        other != "image/gif"@,
        other != "application/pdf"@,
        other != "application/zip"@,
    ensures
        body.len() >= 4 ==> {
            &&& type_agrees("image/jpeg"@, body) <==> body[0] == 0xFF && body[1] == 0xD8 && body[2]
                == 0xFF
            &&& type_agrees("image/png"@, body) <==> body[0] == 0x89 && body[1] == 0x50 && body[2]
                == 0x4E && body[3] == 0x47
            &&& type_agrees("image/gif"@, body) <==> body[0] == 0x47 && body[1] == 0x49 && body[2]
                == 0x46 && body[3] == 0x38
            &&& type_agrees("application/pdf"@, body) <==> body[0] == 0x25 && body[1] == 0x50
                && body[2] == 0x44 && body[3] == 0x46
            &&& type_agrees("application/zip"@, body) <==> body[0] == 0x50 && body[1] == 0x4B
                && body[2] == 0x03 && body[3] == 0x04
        },
        body.len() < 4 ==> forall|any: Seq<char>| #[trigger] type_agrees(any, body),
        type_agrees(other, body),
{
    reveal_strlit("image/jpeg");
    reveal_strlit("image/png");
    reveal_strlit("image/gif");
    reveal_strlit("application/pdf");
    reveal_strlit("application/zip");
    assert("image/jpeg"@.len() == 10);
    assert("image/png"@.len() == 9);
    assert("image/gif"@.len() == 9);
    assert("application/pdf"@.len() == 15);
    assert("application/zip"@.len() == 15);
    assert("image/png"@[6] != "image/gif"@[6]);
    assert("application/pdf"@[12] != "application/zip"@[12]);
    if body.len() >= 4 {
        four_bytes_decide(body, 0x89, 0x50, 0x4E, 0x47);
        four_bytes_decide(body, 0x47, 0x49, 0x46, 0x38);
        four_bytes_decide(body, 0x25, 0x50, 0x44, 0x46);
        four_bytes_decide(body, 0x50, 0x4B, 0x03, 0x04);
        let jpeg = seq![0xFFu8, 0xD8u8, 0xFFu8];
        if body[0] == 0xFF && body[1] == 0xD8 && body[2] == 0xFF {
            assert(body.take(3) == jpeg);
        }
        if body.take(3) == jpeg {
            assert(body[0] == jpeg[0] && body[1] == jpeg[1] && body[2] == jpeg[2]);
        }
    }
}

proof fn four_bytes_decide(body: Seq<u8>, a: u8, b: u8, c: u8, d: u8)
    requires
        body.len() >= 4,
    ensures
        crate::text::begins_with(body, seq![a, b, c, d]) <==> body[0] == a && body[1] == b
            && body[2] == c && body[3] == d,
{
    let sig = seq![a, b, c, d];
    if body.take(4) == sig {
        assert(body[0] == sig[0] && body[1] == sig[1] && body[2] == sig[2] && body[3] == sig[3]);
    }
    if body[0] == a && body[1] == b && body[2] == c && body[3] == d {
        assert(body.take(4) == sig);
    }
}

/// A body is refused for its first bytes if and only if it has at least four and begins
/// like an executable or a script.
pub proof fn magic_numbers_are_checked(body: &[u8], r: Result<(), &'static str>)
    requires
        call_ensures(check_magic_number, (body,), r),
    ensures
        r is Err <==> body@.len() >= 4 && {
            ||| body@[0] == 0x4D && body@[1] == 0x5A
            ||| body@[0] == 0x7F && body@[1] == 0x45 && body@[2] == 0x4C && body@[3] == 0x46
            ||| body@[0] == 0x23 && body@[1] == 0x21 && body@[2] == 0x2F
            ||| body@.len() >= 5 && body@[0] == 0x3C && body@[1] == 0x3F && body@[2] == 0x70
                && body@[3] == 0x68 && body@[4] == 0x70
        },
{
    let b = body@;
    if b.len() >= 4 {
        if b[0] == 0x4D && b[1] == 0x5A {
            executables_and_scripts_are_refused(b.skip(2));
            assert(b == seq![0x4Du8, 0x5Au8] + b.skip(2));
        } else if b[0] == 0x7F && b[1] == 0x45 && b[2] == 0x4C && b[3] == 0x46 {
            executables_and_scripts_are_refused(b.skip(4));
            assert(b == seq![0x7Fu8, 0x45u8, 0x4Cu8, 0x46u8] + b.skip(4));
        } else if b[0] == 0x23 && b[1] == 0x21 && b[2] == 0x2F {
            executables_and_scripts_are_refused(b.skip(3));
            assert(b == seq![0x23u8, 0x21u8, 0x2Fu8] + b.skip(3));
        } else if b.len() >= 5 && b[0] == 0x3C && b[1] == 0x3F && b[2] == 0x70 && b[3] == 0x68
            && b[4] == 0x70 {
            executables_and_scripts_are_refused(b.skip(5));
            assert(b == seq![0x3Cu8, 0x3Fu8, 0x70u8, 0x68u8, 0x70u8] + b.skip(5));
        } else {
            other_bodies_have_no_magic(b);
        }
    } else {
        other_bodies_have_no_magic(b);
    }
}

/// A body may stand under a type if and only if it has fewer than four bytes, the type is
/// none of the five, or it begins with the type's signature.
pub proof fn declared_types_are_checked(content_type: &str, body: &[u8], r: bool)
    requires
        call_ensures(is_allowed_file_type, (content_type, body), r),
    ensures
        body@.len() < 4 ==> r,
        body@.len() >= 4 && content_type@ == "image/jpeg"@ ==> r == (body@[0] == 0xFF && body@[1]
            == 0xD8 && body@[2] == 0xFF),
        body@.len() >= 4 && content_type@ == "image/png"@ ==> r == (body@[0] == 0x89 && body@[1]
            == 0x50 && body@[2] == 0x4E && body@[3] == 0x47),
        body@.len() >= 4 && content_type@ == "image/gif"@ ==> r == (body@[0] == 0x47 && body@[1]
            == 0x49 && body@[2] == 0x46 && body@[3] == 0x38),
        body@.len() >= 4 && content_type@ == "application/pdf"@ ==> r == (body@[0] == 0x25
            && body@[1] == 0x50 && body@[2] == 0x44 && body@[3] == 0x46),
        body@.len() >= 4 && content_type@ == "application/zip"@ ==> r == (body@[0] == 0x50
            && body@[1] == 0x4B && body@[2] == 0x03 && body@[3] == 0x04),
        content_type@ != "image/jpeg"@ && content_type@ != "image/png"@ && content_type@
            != "image/gif"@ && content_type@ != "application/pdf"@ && content_type@
            != "application/zip"@ ==> r,
{
    let other = Seq::<char>::empty();
    reveal_strlit("image/jpeg");
    reveal_strlit("image/png");
    reveal_strlit("image/gif");
    reveal_strlit("application/pdf");
    reveal_strlit("application/zip");
    assert("image/jpeg"@.len() == 10);
    assert("image/png"@.len() == 9);
    assert("image/gif"@.len() == 9);
    assert("application/pdf"@.len() == 15);
    assert("application/zip"@.len() == 15);
    declared_types_need_their_signature(body@, other);
}

} // verus!
