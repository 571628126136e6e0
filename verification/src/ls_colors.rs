//! The `LS_COLORS` setting handed to the shell, so that `ls` colours file types.

use vstd::prelude::*;

verus! {

/// Rules 1 to 20.
pub open spec fn rules_part0() -> Seq<Seq<char>> {
    seq![
        "su=37;41"@,
        "sg=30;43"@,
        "tw=30;42"@,
        "ow=34;42"@,
        "st=37;44"@,
        "di=01;34"@,
        "ln=01;36"@,
        "or=40;31;01"@,
        "mi=00"@,
        "pi=40;33"@,
        "so=01;35"@,
        "bd=40;33;01"@,
        "cd=40;33;01"@,
        "ex=01;32"@,
        "*.tar=01;31"@,
        "*.tgz=01;31"@,
        "*.arc=01;31"@,
        "*.arj=01;31"@,
        "*.taz=01;31"@,
        "*.lha=01;31"@,
    ]
}
/// Rules 21 to 40.
pub open spec fn rules_part1() -> Seq<Seq<char>> {
    seq![
        "*.lz4=01;31"@,
        "*.lzh=01;31"@,
        "*.lzma=01;31"@,
        "*.tlz=01;31"@,
        "*.txz=01;31"@,
        "*.tzo=01;31"@,
        "*.t7z=01;31"@,
        "*.zip=01;31"@,
        "*.z=01;31"@,
        "*.dz=01;31"@,
        "*.gz=01;31"@,
        "*.lrz=01;31"@,
        "*.lz=01;31"@,
        "*.lzo=01;31"@,
        "*.xz=01;31"@,
        "*.zst=01;31"@,
        "*.tzst=01;31"@,
        "*.bz2=01;31"@,
        "*.bz=01;31"@,
        "*.tbz=01;31"@,
    ]
}
/// Rules 41 to 60.
pub open spec fn rules_part2() -> Seq<Seq<char>> {
    seq![
        "*.tbz2=01;31"@,
        "*.tz=01;31"@,
        "*.deb=01;31"@,
        "*.rpm=01;31"@,
        "*.jar=01;31"@,
        "*.war=01;31"@,
        "*.ear=01;31"@,
        "*.sar=01;31"@,
        "*.rar=01;31"@,
        "*.alz=01;31"@,
        "*.ace=01;31"@,
        "*.zoo=01;31"@,
        "*.cpio=01;31"@,
        "*.7z=01;31"@,
        "*.rz=01;31"@,
        "*.cab=01;31"@,
        "*.wim=01;31"@,
        "*.swm=01;31"@,
        "*.dwm=01;31"@,
        "*.esd=01;31"@,
    ]
}
/// Rules 61 to 80.
pub open spec fn rules_part3() -> Seq<Seq<char>> {
    seq![
        "*.jpg=01;35"@,
        "*.jpeg=01;35"@,
        "*.mjpg=01;35"@,
        "*.mjpeg=01;35"@,
        "*.gif=01;35"@,
        "*.bmp=01;35"@,
        "*.pbm=01;35"@,
        "*.pgm=01;35"@,
        "*.ppm=01;35"@,
        "*.tga=01;35"@,
        "*.xbm=01;35"@,
        "*.xpm=01;35"@,
        "*.tif=01;35"@,
        "*.tiff=01;35"@,
        "*.png=01;35"@,
        "*.svg=01;35"@,
        "*.svgz=01;35"@,
        "*.mng=01;35"@,
        "*.pcx=01;35"@,
        "*.mov=01;35"@,
    ]
}
/// Rules 81 to 100.
pub open spec fn rules_part4() -> Seq<Seq<char>> {
    seq![
        "*.mpg=01;35"@,
        "*.mpeg=01;35"@,
        "*.m2v=01;35"@,
        "*.mkv=01;35"@,
        "*.webm=01;35"@,
        "*.webp=01;35"@,
        "*.ogm=01;35"@,
        "*.mp4=01;35"@,
        "*.m4v=01;35"@,
        "*.mp4v=01;35"@,
        "*.vob=01;35"@,
        "*.qt=01;35"@,
        "*.nuv=01;35"@,
        "*.wmv=01;35"@,
        "*.asf=01;35"@,
        "*.rm=01;35"@,
        "*.rmvb=01;35"@,
        "*.flc=01;35"@,
        "*.avi=01;35"@,
        "*.fli=01;35"@,
    ]
}
/// Rules 101 to 120.
pub open spec fn rules_part5() -> Seq<Seq<char>> {
    seq![
        "*.flv=01;35"@,
        "*.gl=01;35"@,
        "*.dl=01;35"@,
        "*.xcf=01;35"@,
        "*.xwd=01;35"@,
        "*.yuv=01;35"@,
        "*.cgm=01;35"@,
        "*.emf=01;35"@,
        "*.aac=00;36"@,
        "*.au=00;36"@,
        "*.flac=00;36"@,
        "*.m4a=00;36"@,
        "*.mid=00;36"@,
        "*.midi=00;36"@,
        "*.mka=00;36"@,
        "*.mp3=00;36"@,
        "*.mpc=00;36"@,
        "*.ogg=00;36"@,
        "*.ra=00;36"@,
        "*.wav=00;36"@,
    ]
}
/// Rules 121 to 140.
pub open spec fn rules_part6() -> Seq<Seq<char>> {
    seq![
        "*.oga=00;36"@,
        "*.opus=00;36"@,
        "*.spx=00;36"@,
        "*.xspf=00;36"@,
        "*.pdf=00;33"@,
        "*.doc=00;33"@,
        "*.docx=00;33"@,
        "*.odt=00;33"@,
        "*.txt=00;33"@,
        "*.md=00;33"@,
        "*.tex=00;33"@,
        "*.c=00;92"@,
        "*.cpp=00;92"@,
        "*.cc=00;92"@,
        "*.h=00;92"@,
        "*.hpp=00;92"@,
        "*.rs=00;92"@,
        "*.go=00;92"@,
        "*.py=00;92"@,
        "*.js=00;92"@,
    ]
}
/// Rules 141 to 156.
pub open spec fn rules_part7() -> Seq<Seq<char>> {
    seq![
        "*.ts=00;92"@,
        "*.java=00;92"@,
        "*.rb=00;92"@,
        "*.php=00;92"@,
        "*.sh=00;92"@,
        "*.bash=00;92"@,
        "*.zsh=00;92"@,
        "*.fish=00;92"@,
        "*.conf=00;96"@,
        "*.config=00;96"@,
        "*.ini=00;96"@,
        "*.yaml=00;96"@,
        "*.yml=00;96"@,
        "*.json=00;96"@,
        "*.toml=00;96"@,
        "*.xml=00;96"@,
    ]
}

/// The colour rules, `kind=SGR codes` or `*.ext=SGR codes`: special permissions,
/// file kinds, then archives (red), images and videos (magenta), audio (cyan),
/// documents (yellow), source code (light green) and configuration (light cyan).
pub open spec fn ls_color_rules() -> Seq<Seq<char>> {
    rules_part0() + rules_part1() + rules_part2() + rules_part3() + rules_part4() + rules_part5() + rules_part6() + rules_part7()
}

/// The rules `rules[i..]` joined with `:`.
pub open spec fn joined_rules(rules: Seq<Seq<char>>, i: int) -> Seq<char>
    decreases rules.len() - i,
{
    if i < 0 || i >= rules.len() {
        Seq::empty()
    } else if i == rules.len() - 1 {
        rules[i]
    } else {
        rules[i] + seq![':'] + joined_rules(rules, i + 1)
    }
}

/// The `LS_COLORS` value: every rule, joined with `:`.
pub open spec fn ls_colors_value() -> Seq<char> {
    joined_rules(ls_color_rules(), 0)
}

fn part0(v: &mut Vec<&'static str>)
    ensures
        final(v)@.len() == old(v)@.len() + rules_part0().len(),
        forall|k: int| 0 <= k < old(v)@.len() ==> final(v)@[k] == old(v)@[k],
        forall|k: int| 0 <= k < rules_part0().len() ==> (#[trigger] final(v)@[old(v)@.len() + k])@ == rules_part0()[k],
{
    v.push("su=37;41");
    v.push("sg=30;43");
    v.push("tw=30;42");
    v.push("ow=34;42");
    v.push("st=37;44");
    v.push("di=01;34");
    v.push("ln=01;36");
    v.push("or=40;31;01");
    v.push("mi=00");
    v.push("pi=40;33");
    v.push("so=01;35");
    v.push("bd=40;33;01");
    v.push("cd=40;33;01");
    v.push("ex=01;32");
    v.push("*.tar=01;31");
    v.push("*.tgz=01;31");
    v.push("*.arc=01;31");
    v.push("*.arj=01;31");
    v.push("*.taz=01;31");
    v.push("*.lha=01;31");
}
fn part1(v: &mut Vec<&'static str>)
    ensures
        final(v)@.len() == old(v)@.len() + rules_part1().len(),
        forall|k: int| 0 <= k < old(v)@.len() ==> final(v)@[k] == old(v)@[k],
        forall|k: int| 0 <= k < rules_part1().len() ==> (#[trigger] final(v)@[old(v)@.len() + k])@ == rules_part1()[k],
{
    v.push("*.lz4=01;31");
    v.push("*.lzh=01;31");
    v.push("*.lzma=01;31");
    v.push("*.tlz=01;31");
    v.push("*.txz=01;31");
    v.push("*.tzo=01;31");
    v.push("*.t7z=01;31");
    v.push("*.zip=01;31");
    v.push("*.z=01;31");
    v.push("*.dz=01;31");
    v.push("*.gz=01;31");
    v.push("*.lrz=01;31");
    v.push("*.lz=01;31");
    v.push("*.lzo=01;31");
    v.push("*.xz=01;31");
    v.push("*.zst=01;31");
    v.push("*.tzst=01;31");
    v.push("*.bz2=01;31");
    v.push("*.bz=01;31");
    v.push("*.tbz=01;31");
}
fn part2(v: &mut Vec<&'static str>)
    ensures
        final(v)@.len() == old(v)@.len() + rules_part2().len(),
        forall|k: int| 0 <= k < old(v)@.len() ==> final(v)@[k] == old(v)@[k],
        forall|k: int| 0 <= k < rules_part2().len() ==> (#[trigger] final(v)@[old(v)@.len() + k])@ == rules_part2()[k],
{
    v.push("*.tbz2=01;31");
    v.push("*.tz=01;31");
    v.push("*.deb=01;31");
    v.push("*.rpm=01;31");
    v.push("*.jar=01;31");
    v.push("*.war=01;31");
    v.push("*.ear=01;31");
    v.push("*.sar=01;31");
    v.push("*.rar=01;31");
    v.push("*.alz=01;31");
    v.push("*.ace=01;31");
    v.push("*.zoo=01;31");
    v.push("*.cpio=01;31");
    v.push("*.7z=01;31");
    v.push("*.rz=01;31");
    v.push("*.cab=01;31");
    v.push("*.wim=01;31");
    v.push("*.swm=01;31");
    v.push("*.dwm=01;31");
    v.push("*.esd=01;31");
}
fn part3(v: &mut Vec<&'static str>)
    ensures
        final(v)@.len() == old(v)@.len() + rules_part3().len(),
        forall|k: int| 0 <= k < old(v)@.len() ==> final(v)@[k] == old(v)@[k],
        forall|k: int| 0 <= k < rules_part3().len() ==> (#[trigger] final(v)@[old(v)@.len() + k])@ == rules_part3()[k],
{
    v.push("*.jpg=01;35");
    v.push("*.jpeg=01;35");
    v.push("*.mjpg=01;35");
    v.push("*.mjpeg=01;35");
    v.push("*.gif=01;35");
    v.push("*.bmp=01;35");
    v.push("*.pbm=01;35");
    v.push("*.pgm=01;35");
    v.push("*.ppm=01;35");
    v.push("*.tga=01;35");
    v.push("*.xbm=01;35");
    v.push("*.xpm=01;35");
    v.push("*.tif=01;35");
    v.push("*.tiff=01;35");
    v.push("*.png=01;35");
    v.push("*.svg=01;35");
    v.push("*.svgz=01;35");
    v.push("*.mng=01;35");
    v.push("*.pcx=01;35");
    v.push("*.mov=01;35");
}
fn part4(v: &mut Vec<&'static str>)
    ensures
        final(v)@.len() == old(v)@.len() + rules_part4().len(),
        forall|k: int| 0 <= k < old(v)@.len() ==> final(v)@[k] == old(v)@[k],
        forall|k: int| 0 <= k < rules_part4().len() ==> (#[trigger] final(v)@[old(v)@.len() + k])@ == rules_part4()[k],
{
    v.push("*.mpg=01;35");
    v.push("*.mpeg=01;35");
    v.push("*.m2v=01;35");
    v.push("*.mkv=01;35");
    v.push("*.webm=01;35");
    v.push("*.webp=01;35");
    v.push("*.ogm=01;35");
    v.push("*.mp4=01;35");
    v.push("*.m4v=01;35");
    v.push("*.mp4v=01;35");
    v.push("*.vob=01;35");
    v.push("*.qt=01;35");
    v.push("*.nuv=01;35");
    v.push("*.wmv=01;35");
    v.push("*.asf=01;35");
    v.push("*.rm=01;35");
    v.push("*.rmvb=01;35");
    v.push("*.flc=01;35");
    v.push("*.avi=01;35");
    v.push("*.fli=01;35");
}
fn part5(v: &mut Vec<&'static str>)
    ensures
        final(v)@.len() == old(v)@.len() + rules_part5().len(),
        forall|k: int| 0 <= k < old(v)@.len() ==> final(v)@[k] == old(v)@[k],
        forall|k: int| 0 <= k < rules_part5().len() ==> (#[trigger] final(v)@[old(v)@.len() + k])@ == rules_part5()[k],
{
    v.push("*.flv=01;35");
    v.push("*.gl=01;35");
    v.push("*.dl=01;35");
    v.push("*.xcf=01;35");
    v.push("*.xwd=01;35");
    v.push("*.yuv=01;35");
    v.push("*.cgm=01;35");
    v.push("*.emf=01;35");
    v.push("*.aac=00;36");
    v.push("*.au=00;36");
    v.push("*.flac=00;36");
    v.push("*.m4a=00;36");
    v.push("*.mid=00;36");
    v.push("*.midi=00;36");
    v.push("*.mka=00;36");
    v.push("*.mp3=00;36");
    v.push("*.mpc=00;36");
    v.push("*.ogg=00;36");
    v.push("*.ra=00;36");
    v.push("*.wav=00;36");
}
fn part6(v: &mut Vec<&'static str>)
    ensures
        final(v)@.len() == old(v)@.len() + rules_part6().len(),
        forall|k: int| 0 <= k < old(v)@.len() ==> final(v)@[k] == old(v)@[k],
        forall|k: int| 0 <= k < rules_part6().len() ==> (#[trigger] final(v)@[old(v)@.len() + k])@ == rules_part6()[k],
{
    v.push("*.oga=00;36");
    v.push("*.opus=00;36");
    v.push("*.spx=00;36");
    v.push("*.xspf=00;36");
    v.push("*.pdf=00;33");
    v.push("*.doc=00;33");
    v.push("*.docx=00;33");
    v.push("*.odt=00;33");
    v.push("*.txt=00;33");
    v.push("*.md=00;33");
    v.push("*.tex=00;33");
    v.push("*.c=00;92");
    v.push("*.cpp=00;92");
    v.push("*.cc=00;92");
    v.push("*.h=00;92");
    v.push("*.hpp=00;92");
    v.push("*.rs=00;92");
    v.push("*.go=00;92");
    v.push("*.py=00;92");
    v.push("*.js=00;92");
}
fn part7(v: &mut Vec<&'static str>)
    ensures
        final(v)@.len() == old(v)@.len() + rules_part7().len(),
        forall|k: int| 0 <= k < old(v)@.len() ==> final(v)@[k] == old(v)@[k],
        forall|k: int| 0 <= k < rules_part7().len() ==> (#[trigger] final(v)@[old(v)@.len() + k])@ == rules_part7()[k],
{
    v.push("*.ts=00;92");
    v.push("*.java=00;92");
    v.push("*.rb=00;92");
    v.push("*.php=00;92");
    v.push("*.sh=00;92");
    v.push("*.bash=00;92");
    v.push("*.zsh=00;92");
    v.push("*.fish=00;92");
    v.push("*.conf=00;96");
    v.push("*.config=00;96");
    v.push("*.ini=00;96");
    v.push("*.yaml=00;96");
    v.push("*.yml=00;96");
    v.push("*.json=00;96");
    v.push("*.toml=00;96");
    v.push("*.xml=00;96");
}

/// The colour rules, in order.
fn rule_list() -> (r: Vec<&'static str>)
    ensures
        r@.len() == ls_color_rules().len(),
        forall|k: int| 0 <= k < r@.len() ==> (#[trigger] r@[k])@ == ls_color_rules()[k],
{
    let mut v: Vec<&'static str> = Vec::new();
    let ghost n0 = v@.len();
    part0(&mut v);
    let ghost n1 = v@.len();
    part1(&mut v);
    let ghost n2 = v@.len();
    part2(&mut v);
    let ghost n3 = v@.len();
    part3(&mut v);
    let ghost n4 = v@.len();
    part4(&mut v);
    let ghost n5 = v@.len();
    part5(&mut v);
    let ghost n6 = v@.len();
    part6(&mut v);
    let ghost n7 = v@.len();
    part7(&mut v);
    proof {
        let all = ls_color_rules();
        assert forall|k: int| 0 <= k < v@.len() implies (#[trigger] v@[k])@ == all[k] by {
            if n0 <= k < n0 + rules_part0().len() { assert(v@[k] == v@[n0 + (k - n0)]); }
            if n1 <= k < n1 + rules_part1().len() { assert(v@[k] == v@[n1 + (k - n1)]); }
            if n2 <= k < n2 + rules_part2().len() { assert(v@[k] == v@[n2 + (k - n2)]); }
            if n3 <= k < n3 + rules_part3().len() { assert(v@[k] == v@[n3 + (k - n3)]); }
            if n4 <= k < n4 + rules_part4().len() { assert(v@[k] == v@[n4 + (k - n4)]); }
            if n5 <= k < n5 + rules_part5().len() { assert(v@[k] == v@[n5 + (k - n5)]); }
            if n6 <= k < n6 + rules_part6().len() { assert(v@[k] == v@[n6 + (k - n6)]); }
            if n7 <= k < n7 + rules_part7().len() { assert(v@[k] == v@[n7 + (k - n7)]); }
        }
    }
    v
}

/// The `LS_COLORS` value (see `ls_colors_value`).
pub fn generate_ls_colors() -> (r: String)
    ensures
        r@ == ls_colors_value(),
{
    let rules = rule_list();
    let ghost rs = ls_color_rules();
    let mut out = String::new();
    let n = rules.len();
    let mut k = n;
    while k > 0
        invariant
            k <= n,
            n == rs.len(),
            n > 0,
            rules@.len() == n,
            forall|q: int| 0 <= q < n ==> (#[trigger] rules@[q])@ == rs[q],
            k < n ==> out@ == joined_rules(rs, k as int),
        decreases k,
    {
        k -= 1;
        let mut piece = String::new();
        crate::text::string_push_str(&mut piece, rules[k]);
        if k + 1 < n {
            crate::text::string_push(&mut piece, ':');
            crate::text::string_push_str(&mut piece, out.as_str());
            assert(piece@ =~= rs[k as int] + seq![':'] + joined_rules(rs, k + 1));
        } else {
            assert(piece@ =~= rs[k as int]);
        }
        out = piece;
    }
    out
}

} // verus!
