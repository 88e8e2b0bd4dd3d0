use sfen::{decode, encode, Error};

fn roundtrip(sfen_from: &str) -> Result<(), Error> {
    let (pos, mvs) = decode(sfen_from)?;
    let sfen_to = encode(&pos, &mvs);
    assert_eq!(sfen_from, sfen_to);
    Ok(())
}

#[test]
fn test() -> Result<(), Error> {
    assert_eq!(
        decode("startpos")?,
        decode("sfen lnsgkgsnl/1r5b1/ppppppppp/9/9/9/PPPPPPPPP/1B5R1/LNSGKGSNL b - 1")?
    );

    roundtrip("sfen lnsgkgsnl/1r5b1/ppppppppp/9/9/9/PPPPPPPPP/1B5R1/LNSGKGSNL b - 1")?;
    let (pos, mvs) = decode(
        "sfen 8l/1l+R2P3/p2pBG1pp/kps1p4/Nn1P2G2/P1P1P2PP/1PS6/1KSG3+r1/LN2+p3L w Sbgn3p 1",
    )?;
    assert_eq!(
        encode(&pos, &mvs),
        "sfen 8l/1l+R2P3/p2pBG1pp/kps1p4/Nn1P2G2/P1P1P2PP/1PS6/1KSG3+r1/LN2+p3L w bgSn3p 1"
    );
    roundtrip(
        "sfen 8l/1l+R2P3/p2pBG1pp/kps1p4/Nn1P2G2/P1P1P2PP/1PS6/1KSG3+r1/LN2+p3L w bgSn3p 1",
    )?;
    roundtrip("sfen lnsgkgsnl/1r5b1/ppppppppp/9/9/9/PPPPPPPPP/1B5R1/LNSGKGSNL b - 1 moves 7g7f 3c3d 8h2b+ 3a2b B*4e B*8e 4e3d 8e7f")?;

    Ok(())
}

#[test]
fn roundtrip_empty_board() -> Result<(), Error> {
    roundtrip("sfen 9/9/9/9/9/9/9/9/9 b - 0")
}

#[test]
fn roundtrip_every_piece_letter() -> Result<(), Error> {
    roundtrip("sfen +P+L+N+S+B+RGK1/+p+l+n+s+b+rgk1/PLNSBR3/plnsbr3/9/4K4/4k4/1P1p1+P1+p1/9 w - 77")
}

#[test]
fn roundtrip_large_hands() -> Result<(), Error> {
    roundtrip("sfen 9/9/9/9/9/9/9/9/9 w 255R255r2B10b4G100g4S9s4N99n4L2l18P255p 300")
}

#[test]
fn roundtrip_negative_ply() -> Result<(), Error> {
    roundtrip("sfen 9/9/9/9/9/9/9/9/9 b - -12")?;
    roundtrip("sfen 9/9/9/9/9/9/9/9/9 b - -2147483648")?;
    roundtrip("sfen 9/9/9/9/9/9/9/9/9 b - 2147483647")
}

#[test]
fn roundtrip_moves_of_every_shape() -> Result<(), Error> {
    roundtrip("sfen 9/9/9/9/9/9/9/9/9 b P 1 moves 1a9i 9i1a+ P*5e K*1i G*9a")
}

#[test]
fn decode_after_encode_gives_the_same_values() -> Result<(), Error> {
    let text = "sfen 8l/1l+R2P3/p2pBG1pp/kps1p4/Nn1P2G2/P1P1P2PP/1PS6/1KSG3+r1/LN2+p3L w Sbgn3p 1 moves 7g7f B*4e";
    let (pos, mvs) = decode(text)?;
    let again = decode(&encode(&pos, &mvs))?;
    assert_eq!(again, (pos, mvs));
    Ok(())
}

#[test]
fn text_that_is_not_canonical_is_written_canonically() -> Result<(), Error> {
    let (pos, mvs) = decode("  sfen\t9/9/9/9/9/9/9/9/4K1111\nw\r2p03P1R0r \x0C +7   moves  1a1b ")?;
    assert_eq!(
        encode(&pos, &mvs),
        "sfen 9/9/9/9/9/9/9/9/4K4 w Rr3P2p 7 moves 1a1b"
    );
    Ok(())
}

#[test]
fn startpos_with_moves() -> Result<(), Error> {
    let (pos, mvs) = decode("startpos moves 7g7f 3c3d")?;
    assert_eq!(
        encode(&pos, &mvs),
        "sfen lnsgkgsnl/1r5b1/ppppppppp/9/9/9/PPPPPPPPP/1B5R1/LNSGKGSNL b - 1 moves 7g7f 3c3d"
    );
    Ok(())
}
