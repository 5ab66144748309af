//! The dispatch table: what each recognised command name translates to.
//!
//! Entries fall into shapes: a literal substitution, a single-argument
//! wrapper (with an optional fixed leading parameter list), a
//! double-argument wrapper (optionally wrapped in a second call), and an
//! accent composer.  Commands needing bespoke logic are handled by the
//! translator itself.

use vstd::prelude::*;

use crate::chars::str_eq;

verus! {

pub open spec fn lit_a_b_spec(w: Seq<char>) -> Option<Seq<char>> {
    if w == "AA"@ {
        Some("circle(A)"@)
    } else if w == "aa"@ {
        Some("circle(a)"@)
    } else if w == "AE"@ {
        Some("Æ"@)
    } else if w == "ae"@ {
        Some("æ"@)
    } else if w == "alefsym"@ {
        Some("alef"@)
    } else if w == "amalg"@ || w == "coprod"@ {
        Some("product.co"@)
    } else if w == "And"@ {
        Some("\\&"@)
    } else if w == "approxeq"@ {
        Some("approx.eq"@)
    } else if w == "approxcolon"@ {
        Some("approx:"@)
    } else if w == "approxcoloncolon"@ {
        Some("approx::"@)
    } else if w == "arcctg"@ {
        Some("#math.op(\"arcctg\")"@)
    } else if w == "arctg"@ {
        Some("#math.op(\"arctg\")"@)
    } else if w == "argmax"@ {
        Some("arg max"@)
    } else if w == "argmin"@ {
        Some("arg min"@)
    } else if w == "ast"@ {
        Some("*"@)
    } else if w == "asymp"@ {
        Some("≍"@)
    } else if w == "backepsilon"@ {
        Some("in.rev.small"@)
    } else if w == "backprime"@ {
        Some("prime.rev"@)
    } else if w == "backsim"@ {
        Some("tilde.rev"@)
    } else if w == "backsimeq"@ {
        Some("tilde.eq.rev"@)
    } else if w == "backslash"@ {
        Some("\\\\"@)
    } else if w == "barwedge"@ {
        Some("⊼"@)
    } else if w == "Bbbk"@ {
        Some("bb(k)"@)
    } else if w == "between"@ {
        Some("≬"@)
    } else if w == "bigcap"@ {
        Some("sect.big"@)
    } else if w == "bigcirc"@ {
        Some("circle.stroked.big"@)
    } else if w == "bigcup"@ {
        Some("union.big"@)
    } else if w == "bigdot"@ {
        Some("dot.circle.big"@)
    } else if w == "bigoplus"@ {
        Some("plus.circle.big"@)
    } else if w == "bigotimes"@ {
        Some("times.circle.big"@)
    } else if w == "bigsqcup"@ {
        Some("union.sq.big"@)
    } else if w == "bigstar"@ {
        Some("star.stroked"@)
    } else if w == "bigtriangledown"@ {
        Some("triangle.stroked.b"@)
    } else if w == "bigtriangleup"@ || w == "vartriangle"@ || w == "triangle"@ {
        Some("triangle.stroked.t"@)
    } else if w == "biguplus"@ {
        Some("union.plus.big"@)
    } else if w == "bigvee"@ {
        Some("or.big"@)
    } else if w == "bigwedge"@ {
        Some("and.big"@)
    } else if w == "blacklozenge"@ {
        Some("lozenge.filled"@)
    } else if w == "blacksquare"@ {
        Some("square.filled"@)
    } else if w == "blacktriangle"@ {
        Some("triangle.filled.t"@)
    } else if w == "blacktriangledown"@ {
        Some("triangle.filled.b"@)
    } else if w == "blacktriangleleft"@ {
        Some("triangle.filled.l"@)
    } else if w == "blacktriangleright"@ {
        Some("triangle.filled.r"@)
    } else if w == "bmod"@ || w == "pmod"@ {
        Some("mod"@)
    } else if w == "bowtie"@ || w == "Join"@ {
        Some("⋈"@)
    } else if w == "Box"@ {
        Some("square.stroked"@)
    } else if w == "boxdot"@ {
        Some("dot.square"@)
    } else if w == "boxminus"@ {
        Some("minus.square"@)
    } else if w == "boxplus"@ {
        Some("plus.square"@)
    } else if w == "boxtimes"@ {
        Some("times.square"@)
    } else if w == "bull"@ || w == "bullet"@ {
        Some("circle.filled.small"@)
    } else if w == "Bumpeq"@ {
        Some("≎"@)
    } else if w == "bumpeq"@ {
        Some("≏"@)
    } else {
        None
    }
}

pub fn lit_a_b(w: &str) -> (r: Option<&'static str>)
    ensures
        lit_a_b_spec(w@) == match r {
            Some(t) => Some(t@),
            None => None::<Seq<char>>,
        },
{
    if str_eq(w, "AA") {
        Some("circle(A)")
    } else if str_eq(w, "aa") {
        Some("circle(a)")
    } else if str_eq(w, "AE") {
        Some("Æ")
    } else if str_eq(w, "ae") {
        Some("æ")
    } else if str_eq(w, "alefsym") {
        Some("alef")
    } else if str_eq(w, "amalg") || str_eq(w, "coprod") {
        Some("product.co")
    } else if str_eq(w, "And") {
        Some("\\&")
    } else if str_eq(w, "approxeq") {
        Some("approx.eq")
    } else if str_eq(w, "approxcolon") {
        Some("approx:")
    } else if str_eq(w, "approxcoloncolon") {
        Some("approx::")
    } else if str_eq(w, "arcctg") {
        Some("#math.op(\"arcctg\")")
    } else if str_eq(w, "arctg") {
        Some("#math.op(\"arctg\")")
    } else if str_eq(w, "argmax") {
        Some("arg max")
    } else if str_eq(w, "argmin") {
        Some("arg min")
    } else if str_eq(w, "ast") {
        Some("*")
    } else if str_eq(w, "asymp") {
        Some("≍")
    } else if str_eq(w, "backepsilon") {
        Some("in.rev.small")
    } else if str_eq(w, "backprime") {
        Some("prime.rev")
    } else if str_eq(w, "backsim") {
        Some("tilde.rev")
    } else if str_eq(w, "backsimeq") {
        Some("tilde.eq.rev")
    } else if str_eq(w, "backslash") {
        Some("\\\\")
    } else if str_eq(w, "barwedge") {
        Some("⊼")
    } else if str_eq(w, "Bbbk") {
        Some("bb(k)")
    } else if str_eq(w, "between") {
        Some("≬")
    } else if str_eq(w, "bigcap") {
        Some("sect.big")
    } else if str_eq(w, "bigcirc") {
        Some("circle.stroked.big")
    } else if str_eq(w, "bigcup") {
        Some("union.big")
    } else if str_eq(w, "bigdot") {
        Some("dot.circle.big")
    } else if str_eq(w, "bigoplus") {
        Some("plus.circle.big")
    } else if str_eq(w, "bigotimes") {
        Some("times.circle.big")
    } else if str_eq(w, "bigsqcup") {
        Some("union.sq.big")
    } else if str_eq(w, "bigstar") {
        Some("star.stroked")
    } else if str_eq(w, "bigtriangledown") {
        Some("triangle.stroked.b")
    } else if str_eq(w, "bigtriangleup") || str_eq(w, "vartriangle") || str_eq(w, "triangle") {
        Some("triangle.stroked.t")
    } else if str_eq(w, "biguplus") {
        Some("union.plus.big")
    } else if str_eq(w, "bigvee") {
        Some("or.big")
    } else if str_eq(w, "bigwedge") {
        Some("and.big")
    } else if str_eq(w, "blacklozenge") {
        Some("lozenge.filled")
    } else if str_eq(w, "blacksquare") {
        Some("square.filled")
    } else if str_eq(w, "blacktriangle") {
        Some("triangle.filled.t")
    } else if str_eq(w, "blacktriangledown") {
        Some("triangle.filled.b")
    } else if str_eq(w, "blacktriangleleft") {
        Some("triangle.filled.l")
    } else if str_eq(w, "blacktriangleright") {
        Some("triangle.filled.r")
    } else if str_eq(w, "bmod") || str_eq(w, "pmod") {
        Some("mod")
    } else if str_eq(w, "bowtie") || str_eq(w, "Join") {
        Some("⋈")
    } else if str_eq(w, "Box") {
        Some("square.stroked")
    } else if str_eq(w, "boxdot") {
        Some("dot.square")
    } else if str_eq(w, "boxminus") {
        Some("minus.square")
    } else if str_eq(w, "boxplus") {
        Some("plus.square")
    } else if str_eq(w, "boxtimes") {
        Some("times.square")
    } else if str_eq(w, "bull") || str_eq(w, "bullet") {
        Some("circle.filled.small")
    } else if str_eq(w, "Bumpeq") {
        Some("≎")
    } else if str_eq(w, "bumpeq") {
        Some("≏")
    } else {
        None
    }
}

pub open spec fn lit_c_d_spec(w: Seq<char>) -> Option<Seq<char>> {
    if w == "Cap"@ || w == "doublecap"@ {
        Some("sect.double"@)
    } else if w == "cap"@ {
        Some("sect"@)
    } else if w == "cdot"@ || w == "cdotp"@ || w == "centerdot"@ || w == "sdot"@ {
        Some("dot.op"@)
    } else if w == "cdots"@ || w == "dots"@ || w == "dotsb"@ || w == "dotsc"@ || w == "dotsi"@ || w == "dotsm"@ {
        Some("dots.h.c"@)
    } else if w == "circ"@ {
        Some("compose"@)
    } else if w == "circeq"@ {
        Some("≗"@)
    } else if w == "circlearrowleft"@ {
        Some("arrow.ccw"@)
    } else if w == "circlearrowright"@ {
        Some("arrow.cw"@)
    } else if w == "circledast"@ {
        Some("ast.circle"@)
    } else if w == "circledcirc"@ {
        Some("circle.nested"@)
    } else if w == "circleddash"@ {
        Some("dash.circle"@)
    } else if w == "circledR"@ {
        Some("®"@)
    } else if w == "circledS"@ {
        Some("Ⓢ"@)
    } else if w == "clubs"@ || w == "clubsuit"@ {
        Some("suit.club"@)
    } else if w == "cnums"@ {
        Some("CC"@)
    } else if w == "Colonapprox"@ {
        Some("::approx"@)
    } else if w == "colonapprox"@ {
        Some(":approx"@)
    } else if w == "coloncolon"@ {
        Some("::"@)
    } else if w == "coloncolonapprox"@ {
        Some("::approx"@)
    } else if w == "coloncolonequals"@ || w == "Coloneqq"@ {
        Some("::="@)
    } else if w == "coloncolonminus"@ || w == "Coloneq"@ {
        Some("\"::−\""@)
    } else if w == "coloncolonsim"@ || w == "Colonsim"@ {
        Some("::tilde.op"@)
    } else if w == "coloneq"@ || w == "colonminus"@ {
        Some("\":−\""@)
    } else if w == "colonequals"@ || w == "coloneqq"@ {
        Some(":="@)
    } else if w == "colonsim"@ {
        Some(":tilde.op"@)
    } else if w == "complexes"@ {
        Some("CC"@)
    } else if w == "cong"@ {
        Some("tilde.equiv"@)
    } else if w == "cosec"@ {
        Some("#math.op(\"cosec\")"@)
    } else if w == "cotg"@ {
        Some("#math.op(\"cotg\")"@)
    } else if w == "cth"@ {
        Some("#math.op(\"cth\")"@)
    } else if w == "Cup"@ || w == "doublecup"@ {
        Some("union.double"@)
    } else if w == "cup"@ {
        Some("union"@)
    } else if w == "curlyeqprec"@ {
        Some("eq.prec"@)
    } else if w == "curlyeqsucc"@ {
        Some("eq.succ"@)
    } else if w == "curlyvee"@ {
        Some("or.curly"@)
    } else if w == "curlywedge"@ {
        Some("and.curly"@)
    } else if w == "curvearrowleft"@ {
        Some("arrow.ccw.half"@)
    } else if w == "curvearrowright"@ {
        Some("arrow.cw.half"@)
    } else if w == "dag"@ {
        Some("dagger"@)
    } else if w == "Dagger"@ || w == "ddag"@ || w == "ddagger"@ {
        Some("dagger.double"@)
    } else if w == "daleth"@ {
        Some("ℸ"@)
    } else if w == "Darr"@ || w == "dArr"@ || w == "Downarrow"@ {
        Some("arrow.b.double"@)
    } else if w == "darr"@ || w == "downarrow"@ {
        Some("arrow.b"@)
    } else if w == "dashleftarrow"@ {
        Some("arrow.l.dash"@)
    } else if w == "dashrightarrow"@ {
        Some("arrow.r.dash"@)
    } else if w == "dashv"@ {
        Some("tack.l"@)
    } else if w == "dbcolon"@ {
        Some("::"@)
    } else if w == "ddots"@ {
        Some("dots.down"@)
    } else if w == "digaamma"@ {
        Some("ϝ"@)
    } else if w == "diagdown"@ {
        Some("╲"@)
    } else if w == "diagup"@ {
        Some("╱"@)
    } else if w == "Diamond"@ {
        Some("lozenge.stroked"@)
    } else if w == "diamond"@ {
        Some("diamond.stroked.small"@)
    } else if w == "diamonds"@ || w == "diamondsuit"@ {
        Some("♢"@)
    } else if w == "divideontimes"@ {
        Some("times.div"@)
    } else if w == "Doteq"@ || w == "doteqdot"@ {
        Some("≑"@)
    } else if w == "doteq"@ {
        Some("≐"@)
    } else if w == "dotplus"@ {
        Some("plus.dot"@)
    } else if w == "dotso"@ || w == "ldots"@ || w == "mathellipsis"@ {
        Some("..."@)
    } else if w == "doublebarwedge"@ {
        Some("⩞"@)
    } else if w == "downdownarrows"@ {
        Some("arrows.bb"@)
    } else if w == "downharpoonleft"@ {
        Some("harpoon.bl"@)
    } else if w == "downharpoonright"@ {
        Some("harpoon.br"@)
    } else {
        None
    }
}

pub fn lit_c_d(w: &str) -> (r: Option<&'static str>)
    ensures
        lit_c_d_spec(w@) == match r {
            Some(t) => Some(t@),
            None => None::<Seq<char>>,
        },
{
    if str_eq(w, "Cap") || str_eq(w, "doublecap") {
        Some("sect.double")
    } else if str_eq(w, "cap") {
        Some("sect")
    } else if str_eq(w, "cdot") || str_eq(w, "cdotp") || str_eq(w, "centerdot") || str_eq(w, "sdot") {
        Some("dot.op")
    } else if str_eq(w, "cdots") || str_eq(w, "dots") || str_eq(w, "dotsb") || str_eq(w, "dotsc") || str_eq(w, "dotsi") || str_eq(w, "dotsm") {
        Some("dots.h.c")
    } else if str_eq(w, "circ") {
        Some("compose")
    } else if str_eq(w, "circeq") {
        Some("≗")
    } else if str_eq(w, "circlearrowleft") {
        Some("arrow.ccw")
    } else if str_eq(w, "circlearrowright") {
        Some("arrow.cw")
    } else if str_eq(w, "circledast") {
        Some("ast.circle")
    } else if str_eq(w, "circledcirc") {
        Some("circle.nested")
    } else if str_eq(w, "circleddash") {
        Some("dash.circle")
    } else if str_eq(w, "circledR") {
        Some("®")
    } else if str_eq(w, "circledS") {
        Some("Ⓢ")
    } else if str_eq(w, "clubs") || str_eq(w, "clubsuit") {
        Some("suit.club")
    } else if str_eq(w, "cnums") {
        Some("CC")
    } else if str_eq(w, "Colonapprox") {
        Some("::approx")
    } else if str_eq(w, "colonapprox") {
        Some(":approx")
    } else if str_eq(w, "coloncolon") {
        Some("::")
    } else if str_eq(w, "coloncolonapprox") {
        Some("::approx")
    } else if str_eq(w, "coloncolonequals") || str_eq(w, "Coloneqq") {
        Some("::=")
    } else if str_eq(w, "coloncolonminus") || str_eq(w, "Coloneq") {
        Some("\"::−\"")
    } else if str_eq(w, "coloncolonsim") || str_eq(w, "Colonsim") {
        Some("::tilde.op")
    } else if str_eq(w, "coloneq") || str_eq(w, "colonminus") {
        Some("\":−\"")
    } else if str_eq(w, "colonequals") || str_eq(w, "coloneqq") {
        Some(":=")
    } else if str_eq(w, "colonsim") {
        Some(":tilde.op")
    } else if str_eq(w, "complexes") {
        Some("CC")
    } else if str_eq(w, "cong") {
        Some("tilde.equiv")
    } else if str_eq(w, "cosec") {
        Some("#math.op(\"cosec\")")
    } else if str_eq(w, "cotg") {
        Some("#math.op(\"cotg\")")
    } else if str_eq(w, "cth") {
        Some("#math.op(\"cth\")")
    } else if str_eq(w, "Cup") || str_eq(w, "doublecup") {
        Some("union.double")
    } else if str_eq(w, "cup") {
        Some("union")
    } else if str_eq(w, "curlyeqprec") {
        Some("eq.prec")
    } else if str_eq(w, "curlyeqsucc") {
        Some("eq.succ")
    } else if str_eq(w, "curlyvee") {
        Some("or.curly")
    } else if str_eq(w, "curlywedge") {
        Some("and.curly")
    } else if str_eq(w, "curvearrowleft") {
        Some("arrow.ccw.half")
    } else if str_eq(w, "curvearrowright") {
        Some("arrow.cw.half")
    } else if str_eq(w, "dag") {
        Some("dagger")
    } else if str_eq(w, "Dagger") || str_eq(w, "ddag") || str_eq(w, "ddagger") {
        Some("dagger.double")
    } else if str_eq(w, "daleth") {
        Some("ℸ")
    } else if str_eq(w, "Darr") || str_eq(w, "dArr") || str_eq(w, "Downarrow") {
        Some("arrow.b.double")
    } else if str_eq(w, "darr") || str_eq(w, "downarrow") {
        Some("arrow.b")
    } else if str_eq(w, "dashleftarrow") {
        Some("arrow.l.dash")
    } else if str_eq(w, "dashrightarrow") {
        Some("arrow.r.dash")
    } else if str_eq(w, "dashv") {
        Some("tack.l")
    } else if str_eq(w, "dbcolon") {
        Some("::")
    } else if str_eq(w, "ddots") {
        Some("dots.down")
    } else if str_eq(w, "digaamma") {
        Some("ϝ")
    } else if str_eq(w, "diagdown") {
        Some("╲")
    } else if str_eq(w, "diagup") {
        Some("╱")
    } else if str_eq(w, "Diamond") {
        Some("lozenge.stroked")
    } else if str_eq(w, "diamond") {
        Some("diamond.stroked.small")
    } else if str_eq(w, "diamonds") || str_eq(w, "diamondsuit") {
        Some("♢")
    } else if str_eq(w, "divideontimes") {
        Some("times.div")
    } else if str_eq(w, "Doteq") || str_eq(w, "doteqdot") {
        Some("≑")
    } else if str_eq(w, "doteq") {
        Some("≐")
    } else if str_eq(w, "dotplus") {
        Some("plus.dot")
    } else if str_eq(w, "dotso") || str_eq(w, "ldots") || str_eq(w, "mathellipsis") {
        Some("...")
    } else if str_eq(w, "doublebarwedge") {
        Some("⩞")
    } else if str_eq(w, "downdownarrows") {
        Some("arrows.bb")
    } else if str_eq(w, "downharpoonleft") {
        Some("harpoon.bl")
    } else if str_eq(w, "downharpoonright") {
        Some("harpoon.br")
    } else {
        None
    }
}

pub open spec fn lit_e_h_spec(w: Seq<char>) -> Option<Seq<char>> {
    if w == "ell"@ {
        Some("cal(l)"@)
    } else if w == "empty"@ || w == "emptyset"@ {
        Some("empty"@)
    } else if w == "enspace"@ {
        Some("space.en"@)
    } else if w == "epsilon"@ {
        Some("epsilon.alt"@)
    } else if w == "eqcirc"@ {
        Some("≖"@)
    } else if w == "Eqcolon"@ || w == "minuscoloncolon"@ {
        Some("\"−::\""@)
    } else if w == "eqcolon"@ || w == "minuscolon"@ {
        Some("dash.colon"@)
    } else if w == "Eqqcolon"@ || w == "equalscoloncolon"@ {
        Some("\"=::\""@)
    } else if w == "eqqcolon"@ || w == "equalscolon"@ {
        Some("=:"@)
    } else if w == "eqsim"@ {
        Some("eq.tilde"@)
    } else if w == "eqslantgtr"@ {
        Some("⪖"@)
    } else if w == "eqslantless"@ {
        Some("⪕"@)
    } else if w == "eth"@ {
        Some("ð"@)
    } else if w == "exist"@ {
        Some("exists"@)
    } else if w == "fallingdotseq"@ {
        Some("≒"@)
    } else if w == "Finv"@ {
        Some("Ⅎ"@)
    } else if w == "flat"@ {
        Some("♭"@)
    } else if w == "frown"@ {
        Some("⌢"@)
    } else if w == "Game"@ {
        Some("⅁"@)
    } else if w == "ge"@ || w == "geq"@ {
        Some(">="@)
    } else if w == "geqq"@ {
        Some("ge.equiv"@)
    } else if w == "geqslant"@ {
        Some("gt.eq.slant"@)
    } else if w == "gets"@ || w == "larr"@ || w == "leftarrow"@ {
        Some("<-"@)
    } else if w == "gg"@ {
        Some(">>"@)
    } else if w == "ggg"@ || w == "gggtr"@ {
        Some(">>>"@)
    } else if w == "gnapprox"@ {
        Some("⪊"@)
    } else if w == "gneq"@ {
        Some("⪈"@)
    } else if w == "gneqq"@ {
        Some("gt.nequiv"@)
    } else if w == "gnsim"@ {
        Some("gt.ntilde"@)
    } else if w == "gt"@ {
        Some(">"@)
    } else if w == "gtapprox"@ {
        Some("⪆"@)
    } else if w == "gtreqless"@ {
        Some("gt.eq.lt"@)
    } else if w == "gtreqqless"@ {
        Some("⪌"@)
    } else if w == "gtrless"@ {
        Some("gt.lt"@)
    } else if w == "gtrsim"@ {
        Some("gt.tilde"@)
    } else if w == "Harr"@ || w == "hArr"@ || w == "Leftrightarrow"@ || w == "Lrarr"@ || w == "lrArr"@ {
        Some("<=>"@)
    } else if w == "harr"@ || w == "leftrightarrow"@ || w == "lrarr"@ {
        Some("<->"@)
    } else if w == "hbar"@ || w == "hslash"@ {
        Some("planck.reduce"@)
    } else if w == "hearts"@ || w == "heartsuit"@ {
        Some("♡"@)
    } else if w == "hookleftarrow"@ {
        Some("arrow.l.hook"@)
    } else if w == "hookrightarrow"@ {
        Some("arrow.r.hook"@)
    } else {
        None
    }
}

pub fn lit_e_h(w: &str) -> (r: Option<&'static str>)
    ensures
        lit_e_h_spec(w@) == match r {
            Some(t) => Some(t@),
            None => None::<Seq<char>>,
        },
{
    if str_eq(w, "ell") {
        Some("cal(l)")
    } else if str_eq(w, "empty") || str_eq(w, "emptyset") {
        Some("empty")
    } else if str_eq(w, "enspace") {
        Some("space.en")
    } else if str_eq(w, "epsilon") {
        Some("epsilon.alt")
    } else if str_eq(w, "eqcirc") {
        Some("≖")
    } else if str_eq(w, "Eqcolon") || str_eq(w, "minuscoloncolon") {
        Some("\"−::\"")
    } else if str_eq(w, "eqcolon") || str_eq(w, "minuscolon") {
        Some("dash.colon")
    } else if str_eq(w, "Eqqcolon") || str_eq(w, "equalscoloncolon") {
        Some("\"=::\"")
    } else if str_eq(w, "eqqcolon") || str_eq(w, "equalscolon") {
        Some("=:")
    } else if str_eq(w, "eqsim") {
        Some("eq.tilde")
    } else if str_eq(w, "eqslantgtr") {
        Some("⪖")
    } else if str_eq(w, "eqslantless") {
        Some("⪕")
    } else if str_eq(w, "eth") {
        Some("ð")
    } else if str_eq(w, "exist") {
        Some("exists")
    } else if str_eq(w, "fallingdotseq") {
        Some("≒")
    } else if str_eq(w, "Finv") {
        Some("Ⅎ")
    } else if str_eq(w, "flat") {
        Some("♭")
    } else if str_eq(w, "frown") {
        Some("⌢")
    } else if str_eq(w, "Game") {
        Some("⅁")
    } else if str_eq(w, "ge") || str_eq(w, "geq") {
        Some(">=")
    } else if str_eq(w, "geqq") {
        Some("ge.equiv")
    } else if str_eq(w, "geqslant") {
        Some("gt.eq.slant")
    } else if str_eq(w, "gets") || str_eq(w, "larr") || str_eq(w, "leftarrow") {
        Some("<-")
    } else if str_eq(w, "gg") {
        Some(">>")
    } else if str_eq(w, "ggg") || str_eq(w, "gggtr") {
        Some(">>>")
    } else if str_eq(w, "gnapprox") {
        Some("⪊")
    } else if str_eq(w, "gneq") {
        Some("⪈")
    } else if str_eq(w, "gneqq") {
        Some("gt.nequiv")
    } else if str_eq(w, "gnsim") {
        Some("gt.ntilde")
    } else if str_eq(w, "gt") {
        Some(">")
    } else if str_eq(w, "gtapprox") {
        Some("⪆")
    } else if str_eq(w, "gtreqless") {
        Some("gt.eq.lt")
    } else if str_eq(w, "gtreqqless") {
        Some("⪌")
    } else if str_eq(w, "gtrless") {
        Some("gt.lt")
    } else if str_eq(w, "gtrsim") {
        Some("gt.tilde")
    } else if str_eq(w, "Harr") || str_eq(w, "hArr") || str_eq(w, "Leftrightarrow") || str_eq(w, "Lrarr") || str_eq(w, "lrArr") {
        Some("<=>")
    } else if str_eq(w, "harr") || str_eq(w, "leftrightarrow") || str_eq(w, "lrarr") {
        Some("<->")
    } else if str_eq(w, "hbar") || str_eq(w, "hslash") {
        Some("planck.reduce")
    } else if str_eq(w, "hearts") || str_eq(w, "heartsuit") {
        Some("♡")
    } else if str_eq(w, "hookleftarrow") {
        Some("arrow.l.hook")
    } else if str_eq(w, "hookrightarrow") {
        Some("arrow.r.hook")
    } else {
        None
    }
}

pub open spec fn lit_i_m_spec(w: Seq<char>) -> Option<Seq<char>> {
    if w == "i"@ || w == "imath"@ {
        Some("dotless.i"@)
    } else if w == "iff"@ || w == "Longleftrightarrow"@ {
        Some("<==>"@)
    } else if w == "iiint"@ {
        Some("integral.triple"@)
    } else if w == "iint"@ {
        Some("integral.double"@)
    } else if w == "image"@ {
        Some("Im"@)
    } else if w == "impliedby"@ || w == "Longleftarrow"@ {
        Some("<=="@)
    } else if w == "implies"@ {
        Some("==>"@)
    } else if w == "infin"@ || w == "infty"@ {
        Some("infinity"@)
    } else if w == "injlim"@ {
        Some("#math.op(\"inj\\u{{2009}}lim\", limits: true)"@)
    } else if w == "int"@ || w == "intop"@ {
        Some("integral"@)
    } else if w == "intercal"@ {
        Some("⊺"@)
    } else if w == "isin"@ {
        Some("in"@)
    } else if w == "j"@ || w == "jmath"@ {
        Some("dotless.j"@)
    } else if w == "KaTeX"@ {
        Some("\"KaTeX\""@)
    } else if w == "lang"@ || w == "langle"@ {
        Some("angle.l"@)
    } else if w == "Larr"@ || w == "lArr"@ || w == "Leftarrow"@ {
        Some("arrow.l.double"@)
    } else if w == "LaTeX"@ {
        Some("\"LaTeX\""@)
    } else if w == "lBrace"@ {
        Some("⦃"@)
    } else if w == "lbrace"@ {
        Some("{"@)
    } else if w == "lbrack"@ {
        Some("["@)
    } else if w == "lceil"@ {
        Some("⌈"@)
    } else if w == "ldotp"@ {
        Some("."@)
    } else if w == "le"@ || w == "leq"@ {
        Some("<="@)
    } else if w == "leadsto"@ {
        Some("arrow.r.squiggly"@)
    } else if w == "lfloor"@ {
        Some("⌊"@)
    } else if w == "lgroup"@ {
        Some("turtle.l"@)
    } else if w == "lhd"@ || w == "vartriangleleft"@ {
        Some("lt.tri"@)
    } else if w == "limits"@ || w == "nolimits"@ {
        Some(""@)
    } else if w == "ll"@ {
        Some("<<"@)
    } else if w == "llbracket"@ {
        Some("bracket.l.double"@)
    } else if w == "llcorner"@ {
        Some("⌞"@)
    } else if w == "Lleftarrow"@ {
        Some("arrow.l.triple"@)
    } else if w == "lll"@ || w == "llless"@ {
        Some("<<<"@)
    } else if w == "lnapprox"@ {
        Some("⪉"@)
    } else if w == "lneq"@ {
        Some("⪇"@)
    } else if w == "lneqq"@ {
        Some("lt.nequiv"@)
    } else if w == "lnot"@ {
        Some("not"@)
    } else if w == "lnsim"@ {
        Some("lt.ntilde"@)
    } else if w == "longleftarrow"@ {
        Some("<--"@)
    } else if w == "longleftrightarrow"@ {
        Some("<-->"@)
    } else if w == "longmapsto"@ {
        Some("arrow.r.long.bar"@)
    } else if w == "Longrightarrow"@ {
        Some("==>"@)
    } else if w == "longrightarrow"@ {
        Some("-->"@)
    } else if w == "looparrowleft"@ {
        Some("arrow.l.loop"@)
    } else if w == "looparrowright"@ {
        Some("arrow.r.loop"@)
    } else if w == "lor"@ || w == "vee"@ {
        Some("or"@)
    } else if w == "lozenge"@ {
        Some("lozenge.stroked"@)
    } else if w == "lparen"@ {
        Some("("@)
    } else if w == "lrcorner"@ {
        Some("⌟"@)
    } else if w == "lq"@ {
        Some("quote.l.single"@)
    } else if w == "Lsh"@ {
        Some("↰"@)
    } else if w == "lt"@ {
        Some("<"@)
    } else if w == "ltimes"@ {
        Some("times.l"@)
    } else if w == "lVert"@ || w == "rVert"@ || w == "Vert"@ {
        Some("parallel"@)
    } else if w == "lvert"@ || w == "rvert"@ || w == "vert"@ {
        Some("divides"@)
    } else if w == "mapsto"@ {
        Some("arrow.r.bar"@)
    } else if w == "mathsterling"@ {
        Some("pound"@)
    } else if w == "mathstrut"@ {
        Some("#hide(box(width: 0pt, \")\"))"@)
    } else if w == "measuredangle"@ {
        Some("angle.arc"@)
    } else if w == "medspace"@ {
        Some("space.med"@)
    } else if w == "mho"@ {
        Some("ohm.inv"@)
    } else if w == "mid"@ {
        Some("|"@)
    } else if w == "minuso"@ {
        Some("⊖"@)
    } else if w == "models"@ || w == "vDash"@ {
        Some("tack.r.double"@)
    } else if w == "mp"@ {
        Some("minus.plus"@)
    } else {
        None
    }
}

pub fn lit_i_m(w: &str) -> (r: Option<&'static str>)
    ensures
        lit_i_m_spec(w@) == match r {
            Some(t) => Some(t@),
            None => None::<Seq<char>>,
        },
{
    if str_eq(w, "i") || str_eq(w, "imath") {
        Some("dotless.i")
    } else if str_eq(w, "iff") || str_eq(w, "Longleftrightarrow") {
        Some("<==>")
    } else if str_eq(w, "iiint") {
        Some("integral.triple")
    } else if str_eq(w, "iint") {
        Some("integral.double")
    } else if str_eq(w, "image") {
        Some("Im")
    } else if str_eq(w, "impliedby") || str_eq(w, "Longleftarrow") {
        Some("<==")
    } else if str_eq(w, "implies") {
        Some("==>")
    } else if str_eq(w, "infin") || str_eq(w, "infty") {
        Some("infinity")
    } else if str_eq(w, "injlim") {
        Some("#math.op(\"inj\\u{{2009}}lim\", limits: true)")
    } else if str_eq(w, "int") || str_eq(w, "intop") {
        Some("integral")
    } else if str_eq(w, "intercal") {
        Some("⊺")
    } else if str_eq(w, "isin") {
        Some("in")
    } else if str_eq(w, "j") || str_eq(w, "jmath") {
        Some("dotless.j")
    } else if str_eq(w, "KaTeX") {
        Some("\"KaTeX\"")
    } else if str_eq(w, "lang") || str_eq(w, "langle") {
        Some("angle.l")
    } else if str_eq(w, "Larr") || str_eq(w, "lArr") || str_eq(w, "Leftarrow") {
        Some("arrow.l.double")
    } else if str_eq(w, "LaTeX") {
        Some("\"LaTeX\"")
    } else if str_eq(w, "lBrace") {
        Some("⦃")
    } else if str_eq(w, "lbrace") {
        Some("{")
    } else if str_eq(w, "lbrack") {
        Some("[")
    } else if str_eq(w, "lceil") {
        Some("⌈")
    } else if str_eq(w, "ldotp") {
        Some(".")
    } else if str_eq(w, "le") || str_eq(w, "leq") {
        Some("<=")
    } else if str_eq(w, "leadsto") {
        Some("arrow.r.squiggly")
    } else if str_eq(w, "lfloor") {
        Some("⌊")
    } else if str_eq(w, "lgroup") {
        Some("turtle.l")
    } else if str_eq(w, "lhd") || str_eq(w, "vartriangleleft") {
        Some("lt.tri")
    } else if str_eq(w, "limits") || str_eq(w, "nolimits") {
        Some("")
    } else if str_eq(w, "ll") {
        Some("<<")
    } else if str_eq(w, "llbracket") {
        Some("bracket.l.double")
    } else if str_eq(w, "llcorner") {
        Some("⌞")
    } else if str_eq(w, "Lleftarrow") {
        Some("arrow.l.triple")
    } else if str_eq(w, "lll") || str_eq(w, "llless") {
        Some("<<<")
    } else if str_eq(w, "lnapprox") {
        Some("⪉")
    } else if str_eq(w, "lneq") {
        Some("⪇")
    } else if str_eq(w, "lneqq") {
        Some("lt.nequiv")
    } else if str_eq(w, "lnot") {
        Some("not")
    } else if str_eq(w, "lnsim") {
        Some("lt.ntilde")
    } else if str_eq(w, "longleftarrow") {
        Some("<--")
    } else if str_eq(w, "longleftrightarrow") {
        Some("<-->")
    } else if str_eq(w, "longmapsto") {
        Some("arrow.r.long.bar")
    } else if str_eq(w, "Longrightarrow") {
        Some("==>")
    } else if str_eq(w, "longrightarrow") {
        Some("-->")
    } else if str_eq(w, "looparrowleft") {
        Some("arrow.l.loop")
    } else if str_eq(w, "looparrowright") {
        Some("arrow.r.loop")
    } else if str_eq(w, "lor") || str_eq(w, "vee") {
        Some("or")
    } else if str_eq(w, "lozenge") {
        Some("lozenge.stroked")
    } else if str_eq(w, "lparen") {
        Some("(")
    } else if str_eq(w, "lrcorner") {
        Some("⌟")
    } else if str_eq(w, "lq") {
        Some("quote.l.single")
    } else if str_eq(w, "Lsh") {
        Some("↰")
    } else if str_eq(w, "lt") {
        Some("<")
    } else if str_eq(w, "ltimes") {
        Some("times.l")
    } else if str_eq(w, "lVert") || str_eq(w, "rVert") || str_eq(w, "Vert") {
        Some("parallel")
    } else if str_eq(w, "lvert") || str_eq(w, "rvert") || str_eq(w, "vert") {
        Some("divides")
    } else if str_eq(w, "mapsto") {
        Some("arrow.r.bar")
    } else if str_eq(w, "mathsterling") {
        Some("pound")
    } else if str_eq(w, "mathstrut") {
        Some("#hide(box(width: 0pt, \")\"))")
    } else if str_eq(w, "measuredangle") {
        Some("angle.arc")
    } else if str_eq(w, "medspace") {
        Some("space.med")
    } else if str_eq(w, "mho") {
        Some("ohm.inv")
    } else if str_eq(w, "mid") {
        Some("|")
    } else if str_eq(w, "minuso") {
        Some("⊖")
    } else if str_eq(w, "models") || str_eq(w, "vDash") {
        Some("tack.r.double")
    } else if str_eq(w, "mp") {
        Some("minus.plus")
    } else {
        None
    }
}

pub open spec fn lit_n_r_spec(w: Seq<char>) -> Option<Seq<char>> {
    if w == "N"@ || w == "natnums"@ {
        Some("NN"@)
    } else if w == "natural"@ {
        Some("♮"@)
    } else if w == "negmedspace"@ {
        Some("#h(-2em/9)"@)
    } else if w == "ncong"@ {
        Some("tilde.equiv.not"@)
    } else if w == "ne"@ || w == "neq"@ {
        Some("!="@)
    } else if w == "nearrow"@ {
        Some("arrow.tr"@)
    } else if w == "neg"@ {
        Some("not"@)
    } else if w == "negthickspace"@ {
        Some("#h(-5em/18)"@)
    } else if w == "negthinspace"@ {
        Some("#h(-1em/6)"@)
    } else if w == "nexist"@ {
        Some("exists.not"@)
    } else if w == "ngeq"@ {
        Some("gt.eq.not"@)
    } else if w == "ngtr"@ {
        Some("gt.not"@)
    } else if w == "ni"@ || w == "owns"@ {
        Some("in.rev"@)
    } else if w == "nLeftarrow"@ {
        Some("arrow.l.double.not"@)
    } else if w == "nleftarrow"@ {
        Some("arrow.l.not"@)
    } else if w == "nLeftrightarrow"@ {
        Some("arrow.l.r.double.not"@)
    } else if w == "nleftrightarrow"@ {
        Some("arrow.l.r.not"@)
    } else if w == "nleq"@ {
        Some("lt.eq.not"@)
    } else if w == "nless"@ {
        Some("lt.not"@)
    } else if w == "nmid"@ {
        Some("divides.not"@)
    } else if w == "nobreakspace"@ {
        Some("space.nobreak"@)
    } else if w == "notin"@ {
        Some("in.not"@)
    } else if w == "notni"@ {
        Some("in.rev.not"@)
    } else if w == "notparallel"@ {
        Some("parallel.not"@)
    } else if w == "nprec"@ {
        Some("prec.not"@)
    } else if w == "npreceq"@ {
        Some("prec.eq.not"@)
    } else if w == "nRightarrow"@ {
        Some("arrow.r.double.not"@)
    } else if w == "nrightarrow"@ {
        Some("arrow.r.not"@)
    } else if w == "nsim"@ {
        Some("tilde.not"@)
    } else if w == "nsubseteq"@ || w == "nsupseteq"@ {
        Some("subset.eq.not"@)
    } else if w == "nsucc"@ {
        Some("succ.not"@)
    } else if w == "nsucceq"@ {
        Some("succ.eq.not"@)
    } else if w == "ntriangleleft"@ {
        Some("lt.tri.not"@)
    } else if w == "ntrianglelefteq"@ {
        Some("lt.tri.eq.not"@)
    } else if w == "ntriangleright"@ {
        Some("gt.tri.not"@)
    } else if w == "ntrianglerighteq"@ {
        Some("gt.tri.eq.not"@)
    } else if w == "nVDash"@ {
        Some("⊯"@)
    } else if w == "nVdash"@ {
        Some("⊮"@)
    } else if w == "nvDash"@ {
        Some("tack.r.double.not"@)
    } else if w == "nvdash"@ {
        Some("tack.r.not"@)
    } else if w == "nwarrow"@ {
        Some("arrow.tl"@)
    } else if w == "O"@ {
        Some("Ø"@)
    } else if w == "o"@ {
        Some("ø"@)
    } else if w == "odot"@ {
        Some("dot.circle"@)
    } else if w == "OE"@ {
        Some("Œ"@)
    } else if w == "oe"@ {
        Some("œ"@)
    } else if w == "oiiint"@ {
        Some("integral.vol"@)
    } else if w == "oiint"@ {
        Some("integral.surf"@)
    } else if w == "oint"@ {
        Some("integral.cont"@)
    } else if w == "ominus"@ {
        Some("minus.circle"@)
    } else if w == "oplus"@ {
        Some("plus.circle"@)
    } else if w == "origof"@ {
        Some("⊶"@)
    } else if w == "oslash"@ {
        Some("⊘"@)
    } else if w == "otimes"@ {
        Some("times.circle"@)
    } else if w == "P"@ {
        Some("pilcrow"@)
    } else if w == "partial"@ {
        Some("diff"@)
    } else if w == "perp"@ {
        Some("bot"@)
    } else if w == "phi"@ {
        Some("phi.alt"@)
    } else if w == "pitchfork"@ {
        Some("⋔"@)
    } else if w == "plim"@ {
        Some("#math.op(\"plim\", limits: true)"@)
    } else if w == "plusmn"@ || w == "pm"@ {
        Some("plus.minus"@)
    } else if w == "pounds"@ {
        Some("pound"@)
    } else if w == "precapprox"@ {
        Some("prec.approx"@)
    } else if w == "preccurlyeq"@ {
        Some("prec.eq"@)
    } else if w == "preceq"@ {
        Some("⪯"@)
    } else if w == "precnapprox"@ {
        Some("prec.napprox"@)
    } else if w == "precneqq"@ {
        Some("prec.nequiv"@)
    } else if w == "precnsim"@ {
        Some("prec.ntilde"@)
    } else if w == "precsim"@ {
        Some("prec.tilde"@)
    } else if w == "prime"@ || w == "rq"@ {
        Some("\'"@)
    } else if w == "prod"@ {
        Some("product"@)
    } else if w == "projlim"@ {
        Some("#math.op(\"proj\\u{{2009}}lim\", limits: true)"@)
    } else if w == "propto"@ || w == "varpropto"@ {
        Some("prop"@)
    } else if w == "qquad"@ {
        Some("#h(2em)"@)
    } else if w == "quad"@ {
        Some("space.quad"@)
    } else if w == "R"@ {
        Some("RR"@)
    } else if w == "rang"@ || w == "rangle"@ {
        Some("angle.r"@)
    } else if w == "Rarr"@ || w == "rArr"@ || w == "Rightarrow"@ {
        Some("=>"@)
    } else if w == "rarr"@ || w == "rightarrow"@ || w == "to"@ {
        Some("->"@)
    } else if w == "ratio"@ {
        Some(":"@)
    } else if w == "rBrace"@ {
        Some("⦄"@)
    } else if w == "rbrace"@ {
        Some("}"@)
    } else if w == "rbrack"@ {
        Some("]"@)
    } else if w == "rceil"@ {
        Some("⌉"@)
    } else if w == "Reals"@ || w == "reals"@ {
        Some("RR"@)
    } else if w == "restriction"@ {
        Some("harpoon.tr"@)
    } else if w == "rfloor"@ {
        Some("⌋"@)
    } else if w == "rgroup"@ {
        Some("turtle.r"@)
    } else if w == "rhd"@ || w == "vartriangleright"@ {
        Some("gt.tri"@)
    } else if w == "rightarrowtail"@ {
        Some(">->"@)
    } else if w == "rightharpoondown"@ {
        Some("harpoon.rb"@)
    } else if w == "rightharpoonup"@ {
        Some("harpoon.rt"@)
    } else if w == "rightleftarrows"@ {
        Some("arrows.rl"@)
    } else if w == "rightleftharpoons"@ {
        Some("harpoons.rtlb"@)
    } else if w == "rightrightarrows"@ {
        Some("arrows.rr"@)
    } else if w == "rightsquigarrow"@ {
        Some("arrow.r.squiggly"@)
    } else if w == "rightthreetimes"@ {
        Some("times.three.r"@)
    } else if w == "risingdotseq"@ {
        Some("≓"@)
    } else if w == "rmoustache"@ {
        Some("⎱"@)
    } else if w == "rparen"@ {
        Some(")"@)
    } else if w == "rrbracket"@ {
        Some("bracket.r.double"@)
    } else if w == "Rrightarrow"@ {
        Some("arrow.r.triple"@)
    } else if w == "Rsh"@ {
        Some("↱"@)
    } else if w == "rtimes"@ {
        Some("times.r"@)
    } else {
        None
    }
}

pub fn lit_n_r(w: &str) -> (r: Option<&'static str>)
    ensures
        lit_n_r_spec(w@) == match r {
            Some(t) => Some(t@),
            None => None::<Seq<char>>,
        },
{
    if str_eq(w, "N") || str_eq(w, "natnums") {
        Some("NN")
    } else if str_eq(w, "natural") {
        Some("♮")
    } else if str_eq(w, "negmedspace") {
        Some("#h(-2em/9)")
    } else if str_eq(w, "ncong") {
        Some("tilde.equiv.not")
    } else if str_eq(w, "ne") || str_eq(w, "neq") {
        Some("!=")
    } else if str_eq(w, "nearrow") {
        Some("arrow.tr")
    } else if str_eq(w, "neg") {
        Some("not")
    } else if str_eq(w, "negthickspace") {
        Some("#h(-5em/18)")
    } else if str_eq(w, "negthinspace") {
        Some("#h(-1em/6)")
    } else if str_eq(w, "nexist") {
        Some("exists.not")
    } else if str_eq(w, "ngeq") {
        Some("gt.eq.not")
    } else if str_eq(w, "ngtr") {
        Some("gt.not")
    } else if str_eq(w, "ni") || str_eq(w, "owns") {
        Some("in.rev")
    } else if str_eq(w, "nLeftarrow") {
        Some("arrow.l.double.not")
    } else if str_eq(w, "nleftarrow") {
        Some("arrow.l.not")
    } else if str_eq(w, "nLeftrightarrow") {
        Some("arrow.l.r.double.not")
    } else if str_eq(w, "nleftrightarrow") {
        Some("arrow.l.r.not")
    } else if str_eq(w, "nleq") {
        Some("lt.eq.not")
    } else if str_eq(w, "nless") {
        Some("lt.not")
    } else if str_eq(w, "nmid") {
        Some("divides.not")
    } else if str_eq(w, "nobreakspace") {
        Some("space.nobreak")
    } else if str_eq(w, "notin") {
        Some("in.not")
    } else if str_eq(w, "notni") {
        Some("in.rev.not")
    } else if str_eq(w, "notparallel") {
        Some("parallel.not")
    } else if str_eq(w, "nprec") {
        Some("prec.not")
    } else if str_eq(w, "npreceq") {
        Some("prec.eq.not")
    } else if str_eq(w, "nRightarrow") {
        Some("arrow.r.double.not")
    } else if str_eq(w, "nrightarrow") {
        Some("arrow.r.not")
    } else if str_eq(w, "nsim") {
        Some("tilde.not")
    } else if str_eq(w, "nsubseteq") || str_eq(w, "nsupseteq") {
        Some("subset.eq.not")
    } else if str_eq(w, "nsucc") {
        Some("succ.not")
    } else if str_eq(w, "nsucceq") {
        Some("succ.eq.not")
    } else if str_eq(w, "ntriangleleft") {
        Some("lt.tri.not")
    } else if str_eq(w, "ntrianglelefteq") {
        Some("lt.tri.eq.not")
    } else if str_eq(w, "ntriangleright") {
        Some("gt.tri.not")
    } else if str_eq(w, "ntrianglerighteq") {
        Some("gt.tri.eq.not")
    } else if str_eq(w, "nVDash") {
        Some("⊯")
    } else if str_eq(w, "nVdash") {
        Some("⊮")
    } else if str_eq(w, "nvDash") {
        Some("tack.r.double.not")
    } else if str_eq(w, "nvdash") {
        Some("tack.r.not")
    } else if str_eq(w, "nwarrow") {
        Some("arrow.tl")
    } else if str_eq(w, "O") {
        Some("Ø")
    } else if str_eq(w, "o") {
        Some("ø")
    } else if str_eq(w, "odot") {
        Some("dot.circle")
    } else if str_eq(w, "OE") {
        Some("Œ")
    } else if str_eq(w, "oe") {
        Some("œ")
    } else if str_eq(w, "oiiint") {
        Some("integral.vol")
    } else if str_eq(w, "oiint") {
        Some("integral.surf")
    } else if str_eq(w, "oint") {
        Some("integral.cont")
    } else if str_eq(w, "ominus") {
        Some("minus.circle")
    } else if str_eq(w, "oplus") {
        Some("plus.circle")
    } else if str_eq(w, "origof") {
        Some("⊶")
    } else if str_eq(w, "oslash") {
        Some("⊘")
    } else if str_eq(w, "otimes") {
        Some("times.circle")
    } else if str_eq(w, "P") {
        Some("pilcrow")
    } else if str_eq(w, "partial") {
        Some("diff")
    } else if str_eq(w, "perp") {
        Some("bot")
    } else if str_eq(w, "phi") {
        Some("phi.alt")
    } else if str_eq(w, "pitchfork") {
        Some("⋔")
    } else if str_eq(w, "plim") {
        Some("#math.op(\"plim\", limits: true)")
    } else if str_eq(w, "plusmn") || str_eq(w, "pm") {
        Some("plus.minus")
    } else if str_eq(w, "pounds") {
        Some("pound")
    } else if str_eq(w, "precapprox") {
        Some("prec.approx")
    } else if str_eq(w, "preccurlyeq") {
        Some("prec.eq")
    } else if str_eq(w, "preceq") {
        Some("⪯")
    } else if str_eq(w, "precnapprox") {
        Some("prec.napprox")
    } else if str_eq(w, "precneqq") {
        Some("prec.nequiv")
    } else if str_eq(w, "precnsim") {
        Some("prec.ntilde")
    } else if str_eq(w, "precsim") {
        Some("prec.tilde")
    } else if str_eq(w, "prime") || str_eq(w, "rq") {
        Some("\'")
    } else if str_eq(w, "prod") {
        Some("product")
    } else if str_eq(w, "projlim") {
        Some("#math.op(\"proj\\u{{2009}}lim\", limits: true)")
    } else if str_eq(w, "propto") || str_eq(w, "varpropto") {
        Some("prop")
    } else if str_eq(w, "qquad") {
        Some("#h(2em)")
    } else if str_eq(w, "quad") {
        Some("space.quad")
    } else if str_eq(w, "R") {
        Some("RR")
    } else if str_eq(w, "rang") || str_eq(w, "rangle") {
        Some("angle.r")
    } else if str_eq(w, "Rarr") || str_eq(w, "rArr") || str_eq(w, "Rightarrow") {
        Some("=>")
    } else if str_eq(w, "rarr") || str_eq(w, "rightarrow") || str_eq(w, "to") {
        Some("->")
    } else if str_eq(w, "ratio") {
        Some(":")
    } else if str_eq(w, "rBrace") {
        Some("⦄")
    } else if str_eq(w, "rbrace") {
        Some("}")
    } else if str_eq(w, "rbrack") {
        Some("]")
    } else if str_eq(w, "rceil") {
        Some("⌉")
    } else if str_eq(w, "Reals") || str_eq(w, "reals") {
        Some("RR")
    } else if str_eq(w, "restriction") {
        Some("harpoon.tr")
    } else if str_eq(w, "rfloor") {
        Some("⌋")
    } else if str_eq(w, "rgroup") {
        Some("turtle.r")
    } else if str_eq(w, "rhd") || str_eq(w, "vartriangleright") {
        Some("gt.tri")
    } else if str_eq(w, "rightarrowtail") {
        Some(">->")
    } else if str_eq(w, "rightharpoondown") {
        Some("harpoon.rb")
    } else if str_eq(w, "rightharpoonup") {
        Some("harpoon.rt")
    } else if str_eq(w, "rightleftarrows") {
        Some("arrows.rl")
    } else if str_eq(w, "rightleftharpoons") {
        Some("harpoons.rtlb")
    } else if str_eq(w, "rightrightarrows") {
        Some("arrows.rr")
    } else if str_eq(w, "rightsquigarrow") {
        Some("arrow.r.squiggly")
    } else if str_eq(w, "rightthreetimes") {
        Some("times.three.r")
    } else if str_eq(w, "risingdotseq") {
        Some("≓")
    } else if str_eq(w, "rmoustache") {
        Some("⎱")
    } else if str_eq(w, "rparen") {
        Some(")")
    } else if str_eq(w, "rrbracket") {
        Some("bracket.r.double")
    } else if str_eq(w, "Rrightarrow") {
        Some("arrow.r.triple")
    } else if str_eq(w, "Rsh") {
        Some("↱")
    } else if str_eq(w, "rtimes") {
        Some("times.r")
    } else {
        None
    }
}

pub open spec fn lit_s_z_spec(w: Seq<char>) -> Option<Seq<char>> {
    if w == "S"@ || w == "sect"@ {
        Some("section"@)
    } else if w == "searrow"@ {
        Some("arrow.br"@)
    } else if w == "setminus"@ || w == "smallsetminus"@ {
        Some("without"@)
    } else if w == "sharp"@ {
        Some("♯"@)
    } else if w == "sim"@ {
        Some("tilde.op"@)
    } else if w == "simcolon"@ {
        Some("tilde.op:"@)
    } else if w == "simcoloncolon"@ {
        Some("tilde.op::"@)
    } else if w == "simeq"@ {
        Some("tilde.eq"@)
    } else if w == "sh"@ {
        Some("#math.op(\"sh\")"@)
    } else if w == "smallint"@ {
        Some("inline(integral)"@)
    } else if w == "smallsmile"@ {
        Some("⌣"@)
    } else if w == "spades"@ || w == "spadesuit"@ {
        Some("suit.spade"@)
    } else if w == "sphericalangle"@ {
        Some("angle.spheric"@)
    } else if w == "sqcap"@ {
        Some("sect.sq"@)
    } else if w == "sqcup"@ {
        Some("union.sq"@)
    } else if w == "square"@ {
        Some("square.stroked"@)
    } else if w == "sqsubset"@ {
        Some("subset.sq"@)
    } else if w == "sqsubseteq"@ {
        Some("subset.eq.sq"@)
    } else if w == "sqsupset"@ {
        Some("superset.sq"@)
    } else if w == "sqsupseteq"@ {
        Some("superset.eq.sq"@)
    } else if w == "ss"@ {
        Some("ß"@)
    } else if w == "star"@ {
        Some("star.op"@)
    } else if w == "sub"@ {
        Some("subset"@)
    } else if w == "sube"@ || w == "subseteq"@ {
        Some("subset.eq"@)
    } else if w == "Subset"@ {
        Some("subset.double"@)
    } else if w == "subseteqq"@ {
        Some("⫅"@)
    } else if w == "subsetneq"@ || w == "varsubsetneq"@ {
        Some("subset.neq"@)
    } else if w == "subsetneqq"@ || w == "varsubsetneqq"@ {
        Some("⫋"@)
    } else if w == "succapprox"@ {
        Some("succ.approx"@)
    } else if w == "succcurlyeq"@ {
        Some("succ.eq"@)
    } else if w == "succeq"@ {
        Some("⪰"@)
    } else if w == "succnapprox"@ {
        Some("succ.napprox"@)
    } else if w == "succneqq"@ {
        Some("succ.nequiv"@)
    } else if w == "succnsim"@ {
        Some("succ.ntilde"@)
    } else if w == "supe"@ || w == "supseteq"@ {
        Some("supset.eq"@)
    } else if w == "Supset"@ {
        Some("superset.double"@)
    } else if w == "supseteqq"@ {
        Some("⫆"@)
    } else if w == "supsetneq"@ || w == "varsupsetneq"@ {
        Some("superset.neq"@)
    } else if w == "supsetneqq"@ || w == "varsupsetneqq"@ {
        Some("⫌"@)
    } else if w == "surd"@ {
        Some("√"@)
    } else if w == "swarrow"@ {
        Some("arrow.bl"@)
    } else if w == "TeX"@ {
        Some("\"TeX\""@)
    } else if w == "th"@ {
        Some("#math.op(\"th\")"@)
    } else if w == "thetasym"@ {
        Some("theta.alt"@)
    } else if w == "thickapprox"@ {
        Some("bold(approx)"@)
    } else if w == "thicksim"@ {
        Some("bold(tilde)"@)
    } else if w == "thickspace"@ {
        Some("#h(5em/18)"@)
    } else if w == "thinspace"@ {
        Some("space.sixth"@)
    } else if w == "triangledown"@ {
        Some("triangle.stroked.b"@)
    } else if w == "triangleleft"@ {
        Some("triangle.stroked.l"@)
    } else if w == "trianglelefteq"@ {
        Some("lt.tri.eq"@)
    } else if w == "triangleq"@ {
        Some("eq.delta"@)
    } else if w == "triangleright"@ {
        Some("triangle.stroked.r"@)
    } else if w == "trianglerighteq"@ {
        Some("gt.tri.eq"@)
    } else if w == "twoheadleftarrow"@ {
        Some("<<-"@)
    } else if w == "twoheadrightarrow"@ {
        Some("->>"@)
    } else if w == "Uarr"@ || w == "uArr"@ || w == "Uparrow"@ {
        Some("arrow.t.double"@)
    } else if w == "uarr"@ || w == "uparrow"@ {
        Some("arrow.t"@)
    } else if w == "ulcorner"@ {
        Some("⌜"@)
    } else if w == "unlhd"@ {
        Some("lt.tri.eq"@)
    } else if w == "unrhd"@ {
        Some("gt.tri.eq"@)
    } else if w == "Updownarrow"@ {
        Some("arrow.t.b.double"@)
    } else if w == "updownarrow"@ {
        Some("arrow.t.b"@)
    } else if w == "upharpoonleft"@ {
        Some("harpoon.tl"@)
    } else if w == "upharpoonright"@ {
        Some("harpoon.tr"@)
    } else if w == "uplus"@ {
        Some("union.plus"@)
    } else if w == "upuparrows"@ {
        Some("arrows.tt"@)
    } else if w == "urcorner"@ {
        Some("⌝"@)
    } else if w == "varDelta"@ {
        Some("italic(Delta)"@)
    } else if w == "varepsilon"@ {
        Some("italic(epsilon)"@)
    } else if w == "varGamma"@ {
        Some("italic(Gamma)"@)
    } else if w == "varkappa"@ {
        Some("italic(kappa)"@)
    } else if w == "varnothing"@ {
        Some("italic(nothing)"@)
    } else if w == "varOmega"@ {
        Some("italic(Omega)"@)
    } else if w == "varPhi"@ {
        Some("italic(Phi)"@)
    } else if w == "varphi"@ {
        Some("italic(phi)"@)
    } else if w == "varPi"@ {
        Some("italic(Pi)"@)
    } else if w == "varpi"@ {
        Some("italic(pi.alt)"@)
    } else if w == "varPsi"@ {
        Some("italic(Psi)"@)
    } else if w == "varrho"@ {
        Some("italic(rho.alt)"@)
    } else if w == "varSigma"@ {
        Some("italic(Sigma)"@)
    } else if w == "varsigma"@ {
        Some("italic(sigma.alt)"@)
    } else if w == "varTheta"@ {
        Some("italic(Theta)"@)
    } else if w == "vartheta"@ {
        Some("italic(theta.alt)"@)
    } else if w == "varUpsilon"@ {
        Some("italic(Upsilon)"@)
    } else if w == "varXi"@ {
        Some("italic(Xi)"@)
    } else if w == "vcentcolon"@ {
        Some(":"@)
    } else if w == "Vdash"@ {
        Some("⊩"@)
    } else if w == "vdash"@ {
        Some("tack.r"@)
    } else if w == "vdots"@ {
        Some("dots.v"@)
    } else if w == "veebar"@ {
        Some("⊻"@)
    } else if w == "Vvdash"@ {
        Some("⊪"@)
    } else if w == "wedge"@ || w == "land"@ {
        Some("and"@)
    } else if w == "weierp"@ || w == "wp"@ {
        Some("℘"@)
    } else if w == "wr"@ {
        Some("wreath"@)
    } else if w == "Z"@ {
        Some("ZZ"@)
    } else {
        None
    }
}

pub fn lit_s_z(w: &str) -> (r: Option<&'static str>)
    ensures
        lit_s_z_spec(w@) == match r {
            Some(t) => Some(t@),
            None => None::<Seq<char>>,
        },
{
    if str_eq(w, "S") || str_eq(w, "sect") {
        Some("section")
    } else if str_eq(w, "searrow") {
        Some("arrow.br")
    } else if str_eq(w, "setminus") || str_eq(w, "smallsetminus") {
        Some("without")
    } else if str_eq(w, "sharp") {
        Some("♯")
    } else if str_eq(w, "sim") {
        Some("tilde.op")
    } else if str_eq(w, "simcolon") {
        Some("tilde.op:")
    } else if str_eq(w, "simcoloncolon") {
        Some("tilde.op::")
    } else if str_eq(w, "simeq") {
        Some("tilde.eq")
    } else if str_eq(w, "sh") {
        Some("#math.op(\"sh\")")
    } else if str_eq(w, "smallint") {
        Some("inline(integral)")
    } else if str_eq(w, "smallsmile") {
        Some("⌣")
    } else if str_eq(w, "spades") || str_eq(w, "spadesuit") {
        Some("suit.spade")
    } else if str_eq(w, "sphericalangle") {
        Some("angle.spheric")
    } else if str_eq(w, "sqcap") {
        Some("sect.sq")
    } else if str_eq(w, "sqcup") {
        Some("union.sq")
    } else if str_eq(w, "square") {
        Some("square.stroked")
    } else if str_eq(w, "sqsubset") {
        Some("subset.sq")
    } else if str_eq(w, "sqsubseteq") {
        Some("subset.eq.sq")
    } else if str_eq(w, "sqsupset") {
        Some("superset.sq")
    } else if str_eq(w, "sqsupseteq") {
        Some("superset.eq.sq")
    } else if str_eq(w, "ss") {
        Some("ß")
    } else if str_eq(w, "star") {
        Some("star.op")
    } else if str_eq(w, "sub") {
        Some("subset")
    } else if str_eq(w, "sube") || str_eq(w, "subseteq") {
        Some("subset.eq")
    } else if str_eq(w, "Subset") {
        Some("subset.double")
    } else if str_eq(w, "subseteqq") {
        Some("⫅")
    } else if str_eq(w, "subsetneq") || str_eq(w, "varsubsetneq") {
        Some("subset.neq")
    } else if str_eq(w, "subsetneqq") || str_eq(w, "varsubsetneqq") {
        Some("⫋")
    } else if str_eq(w, "succapprox") {
        Some("succ.approx")
    } else if str_eq(w, "succcurlyeq") {
        Some("succ.eq")
    } else if str_eq(w, "succeq") {
        Some("⪰")
    } else if str_eq(w, "succnapprox") {
        Some("succ.napprox")
    } else if str_eq(w, "succneqq") {
        Some("succ.nequiv")
    } else if str_eq(w, "succnsim") {
        Some("succ.ntilde")
    } else if str_eq(w, "supe") || str_eq(w, "supseteq") {
        Some("supset.eq")
    } else if str_eq(w, "Supset") {
        Some("superset.double")
    } else if str_eq(w, "supseteqq") {
        Some("⫆")
    } else if str_eq(w, "supsetneq") || str_eq(w, "varsupsetneq") {
        Some("superset.neq")
    } else if str_eq(w, "supsetneqq") || str_eq(w, "varsupsetneqq") {
        Some("⫌")
    } else if str_eq(w, "surd") {
        Some("√")
    } else if str_eq(w, "swarrow") {
        Some("arrow.bl")
    } else if str_eq(w, "TeX") {
        Some("\"TeX\"")
    } else if str_eq(w, "th") {
        Some("#math.op(\"th\")")
    } else if str_eq(w, "thetasym") {
        Some("theta.alt")
    } else if str_eq(w, "thickapprox") {
        Some("bold(approx)")
    } else if str_eq(w, "thicksim") {
        Some("bold(tilde)")
    } else if str_eq(w, "thickspace") {
        Some("#h(5em/18)")
    } else if str_eq(w, "thinspace") {
        Some("space.sixth")
    } else if str_eq(w, "triangledown") {
        Some("triangle.stroked.b")
    } else if str_eq(w, "triangleleft") {
        Some("triangle.stroked.l")
    } else if str_eq(w, "trianglelefteq") {
        Some("lt.tri.eq")
    } else if str_eq(w, "triangleq") {
        Some("eq.delta")
    } else if str_eq(w, "triangleright") {
        Some("triangle.stroked.r")
    } else if str_eq(w, "trianglerighteq") {
        Some("gt.tri.eq")
    } else if str_eq(w, "twoheadleftarrow") {
        Some("<<-")
    } else if str_eq(w, "twoheadrightarrow") {
        Some("->>")
    } else if str_eq(w, "Uarr") || str_eq(w, "uArr") || str_eq(w, "Uparrow") {
        Some("arrow.t.double")
    } else if str_eq(w, "uarr") || str_eq(w, "uparrow") {
        Some("arrow.t")
    } else if str_eq(w, "ulcorner") {
        Some("⌜")
    } else if str_eq(w, "unlhd") {
        Some("lt.tri.eq")
    } else if str_eq(w, "unrhd") {
        Some("gt.tri.eq")
    } else if str_eq(w, "Updownarrow") {
        Some("arrow.t.b.double")
    } else if str_eq(w, "updownarrow") {
        Some("arrow.t.b")
    } else if str_eq(w, "upharpoonleft") {
        Some("harpoon.tl")
    } else if str_eq(w, "upharpoonright") {
        Some("harpoon.tr")
    } else if str_eq(w, "uplus") {
        Some("union.plus")
    } else if str_eq(w, "upuparrows") {
        Some("arrows.tt")
    } else if str_eq(w, "urcorner") {
        Some("⌝")
    } else if str_eq(w, "varDelta") {
        Some("italic(Delta)")
    } else if str_eq(w, "varepsilon") {
        Some("italic(epsilon)")
    } else if str_eq(w, "varGamma") {
        Some("italic(Gamma)")
    } else if str_eq(w, "varkappa") {
        Some("italic(kappa)")
    } else if str_eq(w, "varnothing") {
        Some("italic(nothing)")
    } else if str_eq(w, "varOmega") {
        Some("italic(Omega)")
    } else if str_eq(w, "varPhi") {
        Some("italic(Phi)")
    } else if str_eq(w, "varphi") {
        Some("italic(phi)")
    } else if str_eq(w, "varPi") {
        Some("italic(Pi)")
    } else if str_eq(w, "varpi") {
        Some("italic(pi.alt)")
    } else if str_eq(w, "varPsi") {
        Some("italic(Psi)")
    } else if str_eq(w, "varrho") {
        Some("italic(rho.alt)")
    } else if str_eq(w, "varSigma") {
        Some("italic(Sigma)")
    } else if str_eq(w, "varsigma") {
        Some("italic(sigma.alt)")
    } else if str_eq(w, "varTheta") {
        Some("italic(Theta)")
    } else if str_eq(w, "vartheta") {
        Some("italic(theta.alt)")
    } else if str_eq(w, "varUpsilon") {
        Some("italic(Upsilon)")
    } else if str_eq(w, "varXi") {
        Some("italic(Xi)")
    } else if str_eq(w, "vcentcolon") {
        Some(":")
    } else if str_eq(w, "Vdash") {
        Some("⊩")
    } else if str_eq(w, "vdash") {
        Some("tack.r")
    } else if str_eq(w, "vdots") {
        Some("dots.v")
    } else if str_eq(w, "veebar") {
        Some("⊻")
    } else if str_eq(w, "Vvdash") {
        Some("⊪")
    } else if str_eq(w, "wedge") || str_eq(w, "land") {
        Some("and")
    } else if str_eq(w, "weierp") || str_eq(w, "wp") {
        Some("℘")
    } else if str_eq(w, "wr") {
        Some("wreath")
    } else if str_eq(w, "Z") {
        Some("ZZ")
    } else {
        None
    }
}

pub open spec fn single_entry_spec(w: Seq<char>) -> Option<(Seq<char>, Option<Seq<char>>)> {
    if w == "acute"@ {
        Some(("acute"@, None::<Seq<char>>))
    } else if w == "bar"@ {
        Some(("macron"@, None::<Seq<char>>))
    } else if w == "Bbb"@ {
        Some(("bb"@, None::<Seq<char>>))
    } else if w == "bcancel"@ {
        Some(("cancel"@, Some("inverted: #true"@)))
    } else if w == "bm"@ || w == "bold"@ || w == "boldsymbol"@ {
        Some(("bold"@, None::<Seq<char>>))
    } else if w == "breve"@ || w == "u"@ {
        Some(("breve"@, None::<Seq<char>>))
    } else if w == "cancel"@ {
        Some(("cancel"@, None::<Seq<char>>))
    } else if w == "check"@ || w == "V"@ || w == "widecheck"@ {
        Some(("caron"@, None::<Seq<char>>))
    } else if w == "ddot"@ {
        Some(("dot.double"@, None::<Seq<char>>))
    } else if w == "displaystyle"@ {
        Some(("display"@, None::<Seq<char>>))
    } else if w == "dot"@ {
        Some(("dot"@, None::<Seq<char>>))
    } else if w == "frak"@ || w == "mathfrak"@ {
        Some(("frak"@, None::<Seq<char>>))
    } else if w == "grave"@ {
        Some(("grave"@, None::<Seq<char>>))
    } else if w == "H"@ {
        Some(("acute.double"@, None::<Seq<char>>))
    } else if w == "hat"@ || w == "widehat"@ {
        Some(("hat"@, None::<Seq<char>>))
    } else if w == "hspace"@ || w == "mskip"@ {
        Some(("#h"@, None::<Seq<char>>))
    } else if w == "mathbb"@ {
        Some(("bb"@, None::<Seq<char>>))
    } else if w == "mathbf"@ {
        Some(("bold"@, None::<Seq<char>>))
    } else if w == "mathcal"@ {
        Some(("cal"@, None::<Seq<char>>))
    } else if w == "mathclap"@ {
        Some(("#box"@, Some("width: 0pt"@)))
    } else if w == "mathit"@ {
        Some(("italic"@, None::<Seq<char>>))
    } else if w == "mathring"@ || w == "r"@ {
        Some(("circle"@, None::<Seq<char>>))
    } else if w == "mathrm"@ {
        Some(("upright"@, None::<Seq<char>>))
    } else if w == "mathsf"@ {
        Some(("sans"@, None::<Seq<char>>))
    } else if w == "middle"@ {
        Some(("mid"@, None::<Seq<char>>))
    } else if w == "overleftarrow"@ {
        Some(("arrow.l"@, None::<Seq<char>>))
    } else if w == "overline"@ {
        Some(("overline"@, None::<Seq<char>>))
    } else if w == "overrightarrow"@ || w == "vec"@ {
        Some(("arrow"@, None::<Seq<char>>))
    } else if w == "sout"@ {
        Some(("cancel"@, Some("angle: #90deg"@)))
    } else if w == "textstyle"@ {
        Some(("inline"@, None::<Seq<char>>))
    } else if w == "tilde"@ || w == "widetilde"@ {
        Some(("tilde"@, None::<Seq<char>>))
    } else if w == "underbar"@ || w == "underline"@ {
        Some(("underline"@, None::<Seq<char>>))
    } else if w == "xcancel"@ {
        Some(("cancel"@, Some("cross: #true"@)))
    } else if w == "xhookleftarrow"@ {
        Some(("xarrow"@, Some("sym: arrow.l.hook"@)))
    } else if w == "xhookrightarrow"@ {
        Some(("xarrow"@, Some("sym: arrow.r.hook"@)))
    } else if w == "xLeftarrow"@ {
        Some(("xarrow"@, Some("sym: arrow.l.double"@)))
    } else if w == "xleftarrow"@ {
        Some(("xarrow"@, Some("sym: arrow.l"@)))
    } else if w == "xleftharpoondown"@ {
        Some(("xarrow"@, Some("sym: harpoon.lb"@)))
    } else if w == "xleftharpoonup"@ {
        Some(("xarrow"@, Some("sym: harpoon.lt"@)))
    } else if w == "xLeftrightarrow"@ {
        Some(("xarrow"@, Some("sym: arrow.l.r.double"@)))
    } else if w == "xleftrightarrow"@ {
        Some(("xarrow"@, Some("sym: arrow.l.r"@)))
    } else if w == "xleftrightharpoons"@ {
        Some(("xarrow"@, Some("sym: harpoons.ltrb"@)))
    } else if w == "xlongequal"@ {
        Some(("xarrow"@, Some("sym: equal"@)))
    } else if w == "xmapsto"@ {
        Some(("xarrow"@, Some("sym: arrow.r.bar"@)))
    } else if w == "xRightarrow"@ {
        Some(("xarrow"@, Some("sym: arrow.r.double"@)))
    } else if w == "xrightarrow"@ {
        Some(("xarrow"@, Some("sym: arrow.r"@)))
    } else if w == "xrightharpoondown"@ {
        Some(("xarrow"@, Some("sym: harpoon.rb"@)))
    } else if w == "xrightharpoonup"@ {
        Some(("xarrow"@, Some("sym: harpoon.rt"@)))
    } else if w == "xrightleftharpoons"@ {
        Some(("xarrow"@, Some("sym: harpoons.rtlb"@)))
    } else if w == "xtwoheadleftarrow"@ {
        Some(("xarrow"@, Some("sym: arrow.l.twohead"@)))
    } else if w == "xtwoheadrightarrow"@ {
        Some(("xarrow"@, Some("sym: arrow.r.twohead"@)))
    } else {
        None
    }
}

pub fn single_entry(w: &str) -> (r: Option<(&'static str, Option<&'static str>)>)
    ensures
        single_entry_spec(w@) == match r {
            Some((a, Some(b))) => Some((a@, Some(b@))),
            Some((a, None)) => Some((a@, None::<Seq<char>>)),
            None => None::<(Seq<char>, Option<Seq<char>>)>,
        },
{
    if str_eq(w, "acute") {
        Some(("acute", None))
    } else if str_eq(w, "bar") {
        Some(("macron", None))
    } else if str_eq(w, "Bbb") {
        Some(("bb", None))
    } else if str_eq(w, "bcancel") {
        Some(("cancel", Some("inverted: #true")))
    } else if str_eq(w, "bm") || str_eq(w, "bold") || str_eq(w, "boldsymbol") {
        Some(("bold", None))
    } else if str_eq(w, "breve") || str_eq(w, "u") {
        Some(("breve", None))
    } else if str_eq(w, "cancel") {
        Some(("cancel", None))
    } else if str_eq(w, "check") || str_eq(w, "V") || str_eq(w, "widecheck") {
        Some(("caron", None))
    } else if str_eq(w, "ddot") {
        Some(("dot.double", None))
    } else if str_eq(w, "displaystyle") {
        Some(("display", None))
    } else if str_eq(w, "dot") {
        Some(("dot", None))
    } else if str_eq(w, "frak") || str_eq(w, "mathfrak") {
        Some(("frak", None))
    } else if str_eq(w, "grave") {
        Some(("grave", None))
    } else if str_eq(w, "H") {
        Some(("acute.double", None))
    } else if str_eq(w, "hat") || str_eq(w, "widehat") {
        Some(("hat", None))
    } else if str_eq(w, "hspace") || str_eq(w, "mskip") {
        Some(("#h", None))
    } else if str_eq(w, "mathbb") {
        Some(("bb", None))
    } else if str_eq(w, "mathbf") {
        Some(("bold", None))
    } else if str_eq(w, "mathcal") {
        Some(("cal", None))
    } else if str_eq(w, "mathclap") {
        Some(("#box", Some("width: 0pt")))
    } else if str_eq(w, "mathit") {
        Some(("italic", None))
    } else if str_eq(w, "mathring") || str_eq(w, "r") {
        Some(("circle", None))
    } else if str_eq(w, "mathrm") {
        Some(("upright", None))
    } else if str_eq(w, "mathsf") {
        Some(("sans", None))
    } else if str_eq(w, "middle") {
        Some(("mid", None))
    } else if str_eq(w, "overleftarrow") {
        Some(("arrow.l", None))
    } else if str_eq(w, "overline") {
        Some(("overline", None))
    } else if str_eq(w, "overrightarrow") || str_eq(w, "vec") {
        Some(("arrow", None))
    } else if str_eq(w, "sout") {
        Some(("cancel", Some("angle: #90deg")))
    } else if str_eq(w, "textstyle") {
        Some(("inline", None))
    } else if str_eq(w, "tilde") || str_eq(w, "widetilde") {
        Some(("tilde", None))
    } else if str_eq(w, "underbar") || str_eq(w, "underline") {
        Some(("underline", None))
    } else if str_eq(w, "xcancel") {
        Some(("cancel", Some("cross: #true")))
    } else if str_eq(w, "xhookleftarrow") {
        Some(("xarrow", Some("sym: arrow.l.hook")))
    } else if str_eq(w, "xhookrightarrow") {
        Some(("xarrow", Some("sym: arrow.r.hook")))
    } else if str_eq(w, "xLeftarrow") {
        Some(("xarrow", Some("sym: arrow.l.double")))
    } else if str_eq(w, "xleftarrow") {
        Some(("xarrow", Some("sym: arrow.l")))
    } else if str_eq(w, "xleftharpoondown") {
        Some(("xarrow", Some("sym: harpoon.lb")))
    } else if str_eq(w, "xleftharpoonup") {
        Some(("xarrow", Some("sym: harpoon.lt")))
    } else if str_eq(w, "xLeftrightarrow") {
        Some(("xarrow", Some("sym: arrow.l.r.double")))
    } else if str_eq(w, "xleftrightarrow") {
        Some(("xarrow", Some("sym: arrow.l.r")))
    } else if str_eq(w, "xleftrightharpoons") {
        Some(("xarrow", Some("sym: harpoons.ltrb")))
    } else if str_eq(w, "xlongequal") {
        Some(("xarrow", Some("sym: equal")))
    } else if str_eq(w, "xmapsto") {
        Some(("xarrow", Some("sym: arrow.r.bar")))
    } else if str_eq(w, "xRightarrow") {
        Some(("xarrow", Some("sym: arrow.r.double")))
    } else if str_eq(w, "xrightarrow") {
        Some(("xarrow", Some("sym: arrow.r")))
    } else if str_eq(w, "xrightharpoondown") {
        Some(("xarrow", Some("sym: harpoon.rb")))
    } else if str_eq(w, "xrightharpoonup") {
        Some(("xarrow", Some("sym: harpoon.rt")))
    } else if str_eq(w, "xrightleftharpoons") {
        Some(("xarrow", Some("sym: harpoons.rtlb")))
    } else if str_eq(w, "xtwoheadleftarrow") {
        Some(("xarrow", Some("sym: arrow.l.twohead")))
    } else if str_eq(w, "xtwoheadrightarrow") {
        Some(("xarrow", Some("sym: arrow.r.twohead")))
    } else {
        None
    }
}

pub open spec fn double_entry_spec(w: Seq<char>) -> Option<(Seq<char>, Option<Seq<char>>)> {
    if w == "binom"@ {
        Some(("binom"@, None::<Seq<char>>))
    } else if w == "cfrac"@ {
        Some(("frac"@, Some("display"@)))
    } else if w == "dbinom"@ {
        Some(("binom"@, Some("display"@)))
    } else if w == "dfrac"@ {
        Some(("frac"@, Some("display"@)))
    } else if w == "frac"@ {
        Some(("frac"@, None::<Seq<char>>))
    } else if w == "tbinom"@ {
        Some(("binom"@, Some("inline"@)))
    } else if w == "tfrac"@ {
        Some(("frac"@, Some("inline"@)))
    } else {
        None
    }
}

pub fn double_entry(w: &str) -> (r: Option<(&'static str, Option<&'static str>)>)
    ensures
        double_entry_spec(w@) == match r {
            Some((a, Some(b))) => Some((a@, Some(b@))),
            Some((a, None)) => Some((a@, None::<Seq<char>>)),
            None => None::<(Seq<char>, Option<Seq<char>>)>,
        },
{
    if str_eq(w, "binom") {
        Some(("binom", None))
    } else if str_eq(w, "cfrac") {
        Some(("frac", Some("display")))
    } else if str_eq(w, "dbinom") {
        Some(("binom", Some("display")))
    } else if str_eq(w, "dfrac") {
        Some(("frac", Some("display")))
    } else if str_eq(w, "frac") {
        Some(("frac", None))
    } else if str_eq(w, "tbinom") {
        Some(("binom", Some("inline")))
    } else if str_eq(w, "tfrac") {
        Some(("frac", Some("inline")))
    } else {
        None
    }
}

pub open spec fn accent_entry_spec(w: Seq<char>) -> Option<Seq<char>> {
    if w == "overgroup"@ {
        Some("\\u{0311}"@)
    } else if w == "overleftharpoon"@ {
        Some("harpoon.lt"@)
    } else if w == "overleftrightarrow"@ {
        Some("arrow.l.r"@)
    } else if w == "overlinesegment"@ {
        Some("\\u{20e9}"@)
    } else if w == "overrightharpoon"@ {
        Some("harpoon.rt"@)
    } else if w == "undergroup"@ {
        Some("\\u{032e}"@)
    } else if w == "underleftrightarrow"@ {
        Some("\\u{034d}"@)
    } else {
        None
    }
}

pub fn accent_entry(w: &str) -> (r: Option<&'static str>)
    ensures
        accent_entry_spec(w@) == match r {
            Some(t) => Some(t@),
            None => None::<Seq<char>>,
        },
{
    if str_eq(w, "overgroup") {
        Some("\\u{0311}")
    } else if str_eq(w, "overleftharpoon") {
        Some("harpoon.lt")
    } else if str_eq(w, "overleftrightarrow") {
        Some("arrow.l.r")
    } else if str_eq(w, "overlinesegment") {
        Some("\\u{20e9}")
    } else if str_eq(w, "overrightharpoon") {
        Some("harpoon.rt")
    } else if str_eq(w, "undergroup") {
        Some("\\u{032e}")
    } else if str_eq(w, "underleftrightarrow") {
        Some("\\u{034d}")
    } else {
        None
    }
}

pub open spec fn text_entry_spec(w: Seq<char>) -> Option<Seq<char>> {
    if w == "textasciitilde"@ {
        Some("~"@)
    } else if w == "textasciicircum"@ {
        Some("\\^"@)
    } else if w == "textbackslash"@ {
        Some("\\\\"@)
    } else if w == "textbar"@ {
        Some("|"@)
    } else if w == "textbardbl"@ {
        Some("‖"@)
    } else if w == "textbraceleft"@ {
        Some("{"@)
    } else if w == "textbraceright"@ {
        Some("}"@)
    } else if w == "textdagger"@ {
        Some("#sym.dagger"@)
    } else if w == "textdaggerdbl"@ {
        Some("#sym.dagger.double"@)
    } else if w == "textdegree"@ {
        Some("#sym.degree"@)
    } else if w == "textdollar"@ {
        Some("\\$"@)
    } else if w == "textellipsis"@ {
        Some("..."@)
    } else if w == "textemdash"@ {
        Some("---"@)
    } else if w == "textendash"@ {
        Some("--"@)
    } else if w == "textgreater"@ {
        Some("#sym.gt"@)
    } else if w == "textless"@ {
        Some("#sym.lt"@)
    } else if w == "textquotedblleft"@ {
        Some("#sym.quote.l.double"@)
    } else if w == "textquotedblright"@ {
        Some("#sym.quote.r.double"@)
    } else if w == "textquoteleft"@ {
        Some("#sym.quote.l.single"@)
    } else if w == "textquoteright"@ {
        Some("#sym.quote.r.single"@)
    } else if w == "textregistered"@ {
        Some("®"@)
    } else if w == "textsterling"@ {
        Some("#sym.pound"@)
    } else if w == "textunderscore"@ {
        Some("\\_"@)
    } else {
        None
    }
}

pub fn text_entry(w: &str) -> (r: Option<&'static str>)
    ensures
        text_entry_spec(w@) == match r {
            Some(t) => Some(t@),
            None => None::<Seq<char>>,
        },
{
    if str_eq(w, "textasciitilde") {
        Some("~")
    } else if str_eq(w, "textasciicircum") {
        Some("\\^")
    } else if str_eq(w, "textbackslash") {
        Some("\\\\")
    } else if str_eq(w, "textbar") {
        Some("|")
    } else if str_eq(w, "textbardbl") {
        Some("‖")
    } else if str_eq(w, "textbraceleft") {
        Some("{")
    } else if str_eq(w, "textbraceright") {
        Some("}")
    } else if str_eq(w, "textdagger") {
        Some("#sym.dagger")
    } else if str_eq(w, "textdaggerdbl") {
        Some("#sym.dagger.double")
    } else if str_eq(w, "textdegree") {
        Some("#sym.degree")
    } else if str_eq(w, "textdollar") {
        Some("\\$")
    } else if str_eq(w, "textellipsis") {
        Some("...")
    } else if str_eq(w, "textemdash") {
        Some("---")
    } else if str_eq(w, "textendash") {
        Some("--")
    } else if str_eq(w, "textgreater") {
        Some("#sym.gt")
    } else if str_eq(w, "textless") {
        Some("#sym.lt")
    } else if str_eq(w, "textquotedblleft") {
        Some("#sym.quote.l.double")
    } else if str_eq(w, "textquotedblright") {
        Some("#sym.quote.r.double")
    } else if str_eq(w, "textquoteleft") {
        Some("#sym.quote.l.single")
    } else if str_eq(w, "textquoteright") {
        Some("#sym.quote.r.single")
    } else if str_eq(w, "textregistered") {
        Some("®")
    } else if str_eq(w, "textsterling") {
        Some("#sym.pound")
    } else if str_eq(w, "textunderscore") {
        Some("\\_")
    } else {
        None
    }
}

pub open spec fn literal_entry_spec(w: Seq<char>) -> Option<Seq<char>> {
    if lit_a_b_spec(w) is Some {
        lit_a_b_spec(w)
    } else if lit_c_d_spec(w) is Some {
        lit_c_d_spec(w)
    } else if lit_e_h_spec(w) is Some {
        lit_e_h_spec(w)
    } else if lit_i_m_spec(w) is Some {
        lit_i_m_spec(w)
    } else if lit_n_r_spec(w) is Some {
        lit_n_r_spec(w)
    } else {
        lit_s_z_spec(w)
    }
}

pub fn literal_entry(w: &str) -> (r: Option<&'static str>)
    ensures
        literal_entry_spec(w@) == match r {
            Some(t) => Some(t@),
            None => None::<Seq<char>>,
        },
{
    if let Some(t) = lit_a_b(w) {
        Some(t)
    } else if let Some(t) = lit_c_d(w) {
        Some(t)
    } else if let Some(t) = lit_e_h(w) {
        Some(t)
    } else if let Some(t) = lit_i_m(w) {
        Some(t)
    } else if let Some(t) = lit_n_r(w) {
        Some(t)
    } else if let Some(t) = lit_s_z(w) {
        Some(t)
    } else {
        None
    }
}

} // verus!
