//! The frequency of a note, and the note nearest to a frequency.
//!
//! Frequencies are whole numbers of millihertz. In equal temperament the
//! A of octave 4, semitone 57, sounds at 440 Hz and every semitone up
//! multiplies the frequency by the twelfth root of two.

use vstd::prelude::*;
use vstd::arithmetic::power2::{lemma2_to64, lemma2_to64_rest, lemma_pow2_adds, lemma_pow2_pos, pow2};
use crate::note::{lemma_note_of_semitone, note_of_semitone, Note};

verus! {

/// A frequency in thousandths of a hertz.
pub type MilliHertz = u64;

/// The semitone number of the A of octave 4.
pub const A4_SEMITONE: u8 = 57;

/// The frequency of the A of octave 4.
pub const A4_FREQ: MilliHertz = 440_000;

/// The twelfth power of `x`.
pub open spec fn pow12(x: int) -> int {
    let x2 = x * x;
    let x4 = x2 * x2;
    x4 * x4 * x4
}

/// Is `freq` the frequency of the semitone, in millihertz and rounded down?
///
/// The frequency is 440 000 · 2^((semitone − 57) / 12). That `freq` is its
/// whole part says, after raising to the twelfth power and clearing the
/// denominator, that
/// freq^12 · 2^57 ≤ 440 000^12 · 2^semitone < (freq + 1)^12 · 2^57.
pub open spec fn is_semitone_freq(semitone: int, freq: int) -> bool {
    &&& 0 <= semitone
    &&& 0 <= freq
    &&& pow12(freq) * pow2(57) <= pow12(440_000) * pow2(semitone as nat)
    &&& pow12(440_000) * pow2(semitone as nat) < pow12(freq + 1) * pow2(57)
}

/// The frequencies of the twelve semitones of octave 21, from which those
/// of the lower octaves come by halving.
pub open spec fn top_octave_freq(class: int) -> int {
    if class == 0 {
        34_291_786_095
    } else if class == 1 {
        36_330_881_807
    } else if class == 2 {
        38_491_228_460
    } else if class == 3 {
        40_780_036_010
    } else if class == 4 {
        43_204_943_139
    } else if class == 5 {
        45_774_042_750
    } else if class == 6 {
        48_495_908_973
    } else if class == 7 {
        51_379_625_784
    } else if class == 8 {
        54_434_817_321
    } else if class == 9 {
        57_671_680_000
    } else if class == 10 {
        61_101_016_549
    } else {
        64_734_272_062
    }
}

/// The frequency of a semitone in millihertz.
pub open spec fn semitone_freq(semitone: int) -> int {
    top_octave_freq(semitone % 12) / (pow2((21 - semitone / 12) as nat) as int)
}

proof fn lemma_pow2_values()
    ensures
        pow2(57) == 0x200_0000_0000_0000,
        pow2(64) == 0x1_0000_0000_0000_0000,
        pow2(195) == 0x8_0000_0000_0000_0000_0000_0000_0000_0000_0000_0000_0000_0000,
{
    lemma2_to64();
    lemma2_to64_rest();
    lemma_pow2_adds(64, 64);
    lemma_pow2_adds(128, 64);
    lemma_pow2_adds(192, 3);
}

proof fn lemma_top_octave_entry(class: int)
    requires
        0 <= class < 12,
    ensures
        is_semitone_freq(252 + class, top_octave_freq(class)),
{
    lemma_pow2_values();
    lemma2_to64();
    lemma_pow2_adds(57, 195);
    lemma_pow2_adds(252, class as nat);
    let t = top_octave_freq(class);
    let a: int = 52654090776777588736000000000000000000000000000000000000000000000000int;
    assert(pow12(440_000) == a) by {
        assert(440000int * 440000int == 193600000000int);
        assert(193600000000int * 193600000000int == 37480960000000000000000int);
        assert(37480960000000000000000int * 37480960000000000000000int * 37480960000000000000000int == 52654090776777588736000000000000000000000000000000000000000000000000int);
        assert(pow12(440000int) == 52654090776777588736000000000000000000000000000000000000000000000000int);
    }
    let k = a * pow2(195) * pow2(class as nat);
    assert(pow12(440_000) * pow2((252 + class) as nat) == k * pow2(57)) by (nonlinear_arith)
        requires
            pow2((252 + class) as nat) == pow2(57) * pow2(195) * pow2(class as nat),
            k == pow12(440_000) * pow2(195) * pow2(class as nat),
    ;
    if class == 0 {
        assert(34291786095int * 34291786095int == 1175926593585235349025int);
        assert(1175926593585235349025int * 1175926593585235349025int == 1382803353500975269506768657398413568450625int);
        assert(1382803353500975269506768657398413568450625int * 1382803353500975269506768657398413568450625int * 1382803353500975269506768657398413568450625int == 2644120676646865677979160074613608993844907493800700003951302399257286342593984082135851312204317359775502398633405215087890625int);
        assert(pow12(34291786095int) == 2644120676646865677979160074613608993844907493800700003951302399257286342593984082135851312204317359775502398633405215087890625int);
        assert(34291786096int * 34291786096int == 1175926593653818921216int);
        assert(1175926593653818921216int * 1175926593653818921216int == 1382803353662273762356411775916054014918656int);
        assert(1382803353662273762356411775916054014918656int * 1382803353662273762356411775916054014918656int * 1382803353662273762356411775916054014918656int == 2644120677572144053300584673033792701660946652256155618273755430416033076507377942738414880673848467001497501410454276371644416int);
        assert(pow12(34291786096int) == 2644120677572144053300584673033792701660946652256155618273755430416033076507377942738414880673848467001497501410454276371644416int);
        assert(pow2(0) == 1);
        assert(52654090776777588736000000000000000000000000000000000000000000000000int * 50216813883093446110686315385661331328818843555712276103168int * 1int == 2644120676720947392036043278508669876653873840593870244207251467533113410715648000000000000000000000000000000000000000000000000int);
        assert(2644120676646865677979160074613608993844907493800700003951302399257286342593984082135851312204317359775502398633405215087890625int <= 2644120676720947392036043278508669876653873840593870244207251467533113410715648000000000000000000000000000000000000000000000000int < 2644120677572144053300584673033792701660946652256155618273755430416033076507377942738414880673848467001497501410454276371644416int);
    }
    if class == 1 {
        assert(36330881807int * 36330881807int == 1319932972874203585249int);
        assert(1319932972874203585249int * 1319932972874203585249int == 1742223052880533057585767768518205610392001int);
        assert(1742223052880533057585767768518205610392001int * 1742223052880533057585767768518205610392001int * 1742223052880533057585767768518205610392001int == 5288241352742205558695731580109583606587454182109329474556004215616767507263559447729113192249038174284732394766806085823176001int);
        assert(pow12(36330881807int) == 5288241352742205558695731580109583606587454182109329474556004215616767507263559447729113192249038174284732394766806085823176001int);
        assert(36330881808int * 36330881808int == 1319932972946865348864int);
        assert(1319932972946865348864int * 1319932972946865348864int == 1742223053072350372916306676495344426090496int);
        assert(1742223053072350372916306676495344426090496int * 1742223053072350372916306676495344426090496int * 1742223053072350372916306676495344426090496int == 5288241354488898539604508400175995862675946352401481304995813637811803071796127776338266509989913596895548364139851879794343936int);
        assert(pow12(36330881808int) == 5288241354488898539604508400175995862675946352401481304995813637811803071796127776338266509989913596895548364139851879794343936int);
        assert(pow2(1) == 2);
        assert(52654090776777588736000000000000000000000000000000000000000000000000int * 50216813883093446110686315385661331328818843555712276103168int * 2int == 5288241353441894784072086557017339753307747681187740488414502935066226821431296000000000000000000000000000000000000000000000000int);
        assert(5288241352742205558695731580109583606587454182109329474556004215616767507263559447729113192249038174284732394766806085823176001int <= 5288241353441894784072086557017339753307747681187740488414502935066226821431296000000000000000000000000000000000000000000000000int < 5288241354488898539604508400175995862675946352401481304995813637811803071796127776338266509989913596895548364139851879794343936int);
    }
    if class == 2 {
        assert(38491228460int * 38491228460int == 1481574668359913971600int);
        assert(1481574668359913971600int * 1481574668359913971600int == 2195063497925789070093200924552885606560000int);
        assert(2195063497925789070093200924552885606560000int * 2195063497925789070093200924552885606560000int * 2195063497925789070093200924552885606560000int == 10576482705332587302193346484401609571776026748556248849083076434340566648360541507266111320636245888540418350780416000000000000int);
        assert(pow12(38491228460int) == 10576482705332587302193346484401609571776026748556248849083076434340566648360541507266111320636245888540418350780416000000000000int);
        assert(38491228461int * 38491228461int == 1481574668436896428521int);
        assert(1481574668436896428521int * 1481574668436896428521int == 2195063498153899586263651101310405262247441int);
        assert(2195063498153899586263651101310405262247441int * 2195063498153899586263651101310405262247441int * 2195063498153899586263651101310405262247441int == 10576482708629904575764362373717289636257233005405228715287263660602920466473760695380361934243826394364265342913856603169187121int);
        assert(pow12(38491228461int) == 10576482708629904575764362373717289636257233005405228715287263660602920466473760695380361934243826394364265342913856603169187121int);
        assert(pow2(2) == 4);
        assert(52654090776777588736000000000000000000000000000000000000000000000000int * 50216813883093446110686315385661331328818843555712276103168int * 4int == 10576482706883789568144173114034679506615495362375480976829005870132453642862592000000000000000000000000000000000000000000000000int);
        assert(10576482705332587302193346484401609571776026748556248849083076434340566648360541507266111320636245888540418350780416000000000000int <= 10576482706883789568144173114034679506615495362375480976829005870132453642862592000000000000000000000000000000000000000000000000int < 10576482708629904575764362373717289636257233005405228715287263660602920466473760695380361934243826394364265342913856603169187121int);
    }
    if class == 3 {
        assert(40780036010int * 40780036010int == 1663011336976896720100int);
        assert(1663011336976896720100int * 1663011336976896720100int == 2765606706913685536209365308942137744010000int);
        assert(2765606706913685536209365308942137744010000int * 2765606706913685536209365308942137744010000int * 2765606706913685536209365308942137744010000int == 21152965411149619497227209250193142755817519006829647349982856222265290351353699994993226694054798710631891711403201000000000000int);
        assert(pow12(40780036010int) == 21152965411149619497227209250193142755817519006829647349982856222265290351353699994993226694054798710631891711403201000000000000int);
        assert(40780036011int * 40780036011int == 1663011337058456792121int);
        assert(1663011337058456792121int * 1663011337058456792121int == 2765606707184956185047167748099077807678641int);
        assert(2765606707184956185047167748099077807678641int * 2765606707184956185047167748099077807678641int * 2765606707184956185047167748099077807678641int == 21152965417374125647878600442858503251461510476729513806055103253444560715153486241502319798200293804791971365815506330228328721int);
        assert(pow12(40780036011int) == 21152965417374125647878600442858503251461510476729513806055103253444560715153486241502319798200293804791971365815506330228328721int);
        assert(pow2(3) == 8);
        assert(52654090776777588736000000000000000000000000000000000000000000000000int * 50216813883093446110686315385661331328818843555712276103168int * 8int == 21152965413767579136288346228069359013230990724750961953658011740264907285725184000000000000000000000000000000000000000000000000int);
        assert(21152965411149619497227209250193142755817519006829647349982856222265290351353699994993226694054798710631891711403201000000000000int <= 21152965413767579136288346228069359013230990724750961953658011740264907285725184000000000000000000000000000000000000000000000000int < 21152965417374125647878600442858503251461510476729513806055103253444560715153486241502319798200293804791971365815506330228328721int);
    }
    if class == 4 {
        assert(43204943139int * 43204943139int == 1866667111644223173321int);
        assert(1866667111644223173321int * 1866667111644223173321int == 3484446105694186740979750188305779206169041int);
        assert(3484446105694186740979750188305779206169041int * 3484446105694186740979750188305779206169041int * 3484446105694186740979750188305779206169041int == 42305930819501623857934218235598152346790503236185744544856794250073517608500350070175113888886674635534830975678911102713335921int);
        assert(pow12(43204943139int) == 42305930819501623857934218235598152346790503236185744544856794250073517608500350070175113888886674635534830975678911102713335921int);
        assert(43204943140int * 43204943140int == 1866667111730633059600int);
        assert(1866667111730633059600int * 1866667111730633059600int == 3484446106016783726663070298980457152160000int);
        assert(3484446106016783726663070298980457152160000int * 3484446106016783726663070298980457152160000int * 3484446106016783726663070298980457152160000int == 42305930831251926786591109307443212413692344489793357917055638813279602718232221440140257937982544913620611447197696000000000000int);
        assert(pow12(43204943140int) == 42305930831251926786591109307443212413692344489793357917055638813279602718232221440140257937982544913620611447197696000000000000int);
        assert(pow2(4) == 16);
        assert(52654090776777588736000000000000000000000000000000000000000000000000int * 50216813883093446110686315385661331328818843555712276103168int * 16int == 42305930827535158272576692456138718026461981449501923907316023480529814571450368000000000000000000000000000000000000000000000000int);
        assert(42305930819501623857934218235598152346790503236185744544856794250073517608500350070175113888886674635534830975678911102713335921int <= 42305930827535158272576692456138718026461981449501923907316023480529814571450368000000000000000000000000000000000000000000000000int < 42305930831251926786591109307443212413692344489793357917055638813279602718232221440140257937982544913620611447197696000000000000int);
    }
    if class == 5 {
        assert(45774042750int * 45774042750int == 2095262989678827562500int);
        assert(2095262989678827562500int * 2095262989678827562500int == 4390126995917858656699475484609691406250000int);
        assert(4390126995917858656699475484609691406250000int * 4390126995917858656699475484609691406250000int * 4390126995917858656699475484609691406250000int == 84611861646493014360702150661252328981590769879819441295961348339496066604748862441988906948179688513278961181640625000000000000int);
        assert(pow12(45774042750int) == 84611861646493014360702150661252328981590769879819441295961348339496066604748862441988906948179688513278961181640625000000000000int);
        assert(45774042751int * 45774042751int == 2095262989770375648001int);
        assert(2095262989770375648001int * 2095262989770375648001int == 4390126996301493287360252909010960655296001int);
        assert(4390126996301493287360252909010960655296001int * 4390126996301493287360252909010960655296001int * 4390126996301493287360252909010960655296001int == 84611861668674632563518965927982152642527257885404237553124879513678163438511268762018400530036970206305479171751605760813888001int);
        assert(pow12(45774042751int) == 84611861668674632563518965927982152642527257885404237553124879513678163438511268762018400530036970206305479171751605760813888001int);
        assert(pow2(5) == 32);
        assert(52654090776777588736000000000000000000000000000000000000000000000000int * 50216813883093446110686315385661331328818843555712276103168int * 32int == 84611861655070316545153384912277436052923962899003847814632046961059629142900736000000000000000000000000000000000000000000000000int);
        assert(84611861646493014360702150661252328981590769879819441295961348339496066604748862441988906948179688513278961181640625000000000000int <= 84611861655070316545153384912277436052923962899003847814632046961059629142900736000000000000000000000000000000000000000000000000int < 84611861668674632563518965927982152642527257885404237553124879513678163438511268762018400530036970206305479171751605760813888001int);
    }
    if class == 6 {
        assert(48495908973int * 48495908973int == 2351853187117501914729int);
        assert(2351853187117501914729int * 2351853187117501914729int == 5531213413754751474281808482610981187143441int);
        assert(5531213413754751474281808482610981187143441int * 5531213413754751474281808482610981187143441int * 5531213413754751474281808482610981187143441int == 169223723282531713908358054152079147641732670948915317485111588870980598112108274884770870143916362559570545761447098717386115121int);
        assert(pow12(48495908973int) == 169223723282531713908358054152079147641732670948915317485111588870980598112108274884770870143916362559570545761447098717386115121int);
        assert(48495908974int * 48495908974int == 2351853187214493732676int);
        assert(2351853187214493732676int * 2351853187214493732676int == 5531213414210972506617160838181283350120976int);
        assert(5531213414210972506617160838181283350120976int * 5531213414210972506617160838181283350120976int * 5531213414210972506617160838181283350120976int == 169223723324405033176407312556568652487345310567333520698024727972461732723621550885044507126420361822754967653759987735857074176int);
        assert(pow12(48495908974int) == 169223723324405033176407312556568652487345310567333520698024727972461732723621550885044507126420361822754967653759987735857074176int);
        assert(pow2(6) == 64);
        assert(52654090776777588736000000000000000000000000000000000000000000000000int * 50216813883093446110686315385661331328818843555712276103168int * 64int == 169223723310140633090306769824554872105847925798007695629264093922119258285801472000000000000000000000000000000000000000000000000int);
        assert(169223723282531713908358054152079147641732670948915317485111588870980598112108274884770870143916362559570545761447098717386115121int <= 169223723310140633090306769824554872105847925798007695629264093922119258285801472000000000000000000000000000000000000000000000000int < 169223723324405033176407312556568652487345310567333520698024727972461732723621550885044507126420361822754967653759987735857074176int);
    }
    if class == 7 {
        assert(51379625784int * 51379625784int == 2639865945703877614656int);
        assert(2639865945703877614656int * 2639865945703877614656int == 6968892211287028114251858276253820425998336int);
        assert(6968892211287028114251858276253820425998336int * 6968892211287028114251858276253820425998336int * 6968892211287028114251858276253820425998336int == 338447446541247338068164061739809409322709155244322302270521546527929673746552498356154065449299583151256800965486894804480557056int);
        assert(pow12(51379625784int) == 338447446541247338068164061739809409322709155244322302270521546527929673746552498356154065449299583151256800965486894804480557056int);
        assert(51379625785int * 51379625785int == 2639865945806636866225int);
        assert(2639865945806636866225int * 2639865945806636866225int == 6968892211829569411908459449203288545750625int);
        assert(6968892211829569411908459449203288545750625int * 6968892211829569411908459449203288545750625int * 6968892211829569411908459449203288545750625int == 338447446620293638950224271796145198286844432836860608704080782549705945203870289133420003774154732379682058042418881738525390625int);
        assert(pow12(51379625785int) == 338447446620293638950224271796145198286844432836860608704080782549705945203870289133420003774154732379682058042418881738525390625int);
        assert(pow2(7) == 128);
        assert(52654090776777588736000000000000000000000000000000000000000000000000int * 50216813883093446110686315385661331328818843555712276103168int * 128int == 338447446620281266180613539649109744211695851596015391258528187844238516571602944000000000000000000000000000000000000000000000000int);
        assert(338447446541247338068164061739809409322709155244322302270521546527929673746552498356154065449299583151256800965486894804480557056int <= 338447446620281266180613539649109744211695851596015391258528187844238516571602944000000000000000000000000000000000000000000000000int < 338447446620293638950224271796145198286844432836860608704080782549705945203870289133420003774154732379682058042418881738525390625int);
    }
    if class == 8 {
        assert(54434817321int * 54434817321int == 2963149336770641617041int);
        assert(2963149336770641617041int * 2963149336770641617041int == 8780253992004293288251899371467567301595681int);
        assert(8780253992004293288251899371467567301595681int * 8780253992004293288251899371467567301595681int * 8780253992004293288251899371467567301595681int == 676894893210932127053967931097490636302037192023381864553492993073855333551797276267314532571648217485803146713772396383387206241int);
        assert(pow12(54434817321int) == 676894893210932127053967931097490636302037192023381864553492993073855333551797276267314532571648217485803146713772396383387206241int);
        assert(54434817322int * 54434817322int == 2963149336879511251684int);
        assert(2963149336879511251684int * 2963149336879511251684int == 8780253992649487259637487005486756392835856int);
        assert(8780253992649487259637487005486756392835856int * 8780253992649487259637487005486756392835856int * 8780253992649487259637487005486756392835856int == 676894893360151672909195455923938835905702275633353945184169233640461636641647250700557546601062617477015726092645997650466902016int);
        assert(pow12(54434817322int) == 676894893360151672909195455923938835905702275633353945184169233640461636641647250700557546601062617477015726092645997650466902016int);
        assert(pow2(8) == 256);
        assert(52654090776777588736000000000000000000000000000000000000000000000000int * 50216813883093446110686315385661331328818843555712276103168int * 256int == 676894893240562532361227079298219488423391703192030782517056375688477033143205888000000000000000000000000000000000000000000000000int);
        assert(676894893210932127053967931097490636302037192023381864553492993073855333551797276267314532571648217485803146713772396383387206241int <= 676894893240562532361227079298219488423391703192030782517056375688477033143205888000000000000000000000000000000000000000000000000int < 676894893360151672909195455923938835905702275633353945184169233640461636641647250700557546601062617477015726092645997650466902016int);
    }
    if class == 9 {
        assert(57671680000int * 57671680000int == 3326022674022400000000int);
        assert(3326022674022400000000int * 3326022674022400000000int == 11062426828111116091795701760000000000000000int);
        assert(11062426828111116091795701760000000000000000int * 11062426828111116091795701760000000000000000int * 11062426828111116091795701760000000000000000int == 1353789786481125064722454158596438976846783406384061565034112751376954066286411776000000000000000000000000000000000000000000000000int);
        assert(pow12(57671680000int) == 1353789786481125064722454158596438976846783406384061565034112751376954066286411776000000000000000000000000000000000000000000000000int);
        assert(57671680001int * 57671680001int == 3326022674137743360001int);
        assert(3326022674137743360001int * 3326022674137743360001int == 11062426828878385353131514558572365086720001int);
        assert(11062426828878385353131514558572365086720001int * 11062426828878385353131514558572365086720001int * 11062426828878385353131514558572365086720001int == 1353789786762814057297714498433516317663243052630907716483998648138538169811087835216638606944617773346887649605135526170460160001int);
        assert(pow12(57671680001int) == 1353789786762814057297714498433516317663243052630907716483998648138538169811087835216638606944617773346887649605135526170460160001int);
        assert(pow2(9) == 512);
        assert(52654090776777588736000000000000000000000000000000000000000000000000int * 50216813883093446110686315385661331328818843555712276103168int * 512int == 1353789786481125064722454158596438976846783406384061565034112751376954066286411776000000000000000000000000000000000000000000000000int);
        assert(1353789786481125064722454158596438976846783406384061565034112751376954066286411776000000000000000000000000000000000000000000000000int <= 1353789786481125064722454158596438976846783406384061565034112751376954066286411776000000000000000000000000000000000000000000000000int < 1353789786762814057297714498433516317663243052630907716483998648138538169811087835216638606944617773346887649605135526170460160001int);
    }
    if class == 10 {
        assert(61101016549int * 61101016549int == 3733334223321171869401int);
        assert(3733334223321171869401int * 3733334223321171869401int == 13937784423021097592102430990540533000098801int);
        assert(13937784423021097592102430990540533000098801int * 13937784423021097592102430990540533000098801int * 13937784423021097592102430990540533000098801int == 2707579572590507930871594250729626042544926745973731620149218967245423074086130028158282167996418870892450056293743108458556616401int);
        assert(pow12(61101016549int) == 2707579572590507930871594250729626042544926745973731620149218967245423074086130028158282167996418870892450056293743108458556616401int);
        assert(61101016550int * 61101016550int == 3733334223443373902500int);
        assert(3733334223443373902500int * 3733334223443373902500int == 13937784423933539656773210932418079506250000int);
        assert(13937784423933539656773210932418079506250000int * 13937784423933539656773210932418079506250000int * 13937784423933539656773210932418079506250000int == 2707579573122265939315768363660036081687897458656718069086106867669828060167347628261736052968098098383623379150390625000000000000int);
        assert(pow12(61101016550int) == 2707579573122265939315768363660036081687897458656718069086106867669828060167347628261736052968098098383623379150390625000000000000int);
        assert(pow2(10) == 1024);
        assert(52654090776777588736000000000000000000000000000000000000000000000000int * 50216813883093446110686315385661331328818843555712276103168int * 1024int == 2707579572962250129444908317192877953693566812768123130068225502753908132572823552000000000000000000000000000000000000000000000000int);
        assert(2707579572590507930871594250729626042544926745973731620149218967245423074086130028158282167996418870892450056293743108458556616401int <= 2707579572962250129444908317192877953693566812768123130068225502753908132572823552000000000000000000000000000000000000000000000000int < 2707579573122265939315768363660036081687897458656718069086106867669828060167347628261736052968098098383623379150390625000000000000int);
    }
    if class == 11 {
        assert(64734272062int * 64734272062int == 4190525979397033731844int);
        assert(4190525979397033731844int * 4190525979397033731844int == 17560507984001468776820838934773973299640336int);
        assert(17560507984001468776820838934773973299640336int * 17560507984001468776820838934773973299640336int * 17560507984001468776820838934773973299640336int == 5415159145680872238004131542193899748749016396158197467874754329663023383613912638508194891604916890535607860993978735545310253056int);
        assert(pow12(64734272062int) == 5415159145680872238004131542193899748749016396158197467874754329663023383613912638508194891604916890535607860993978735545310253056int);
        assert(64734272063int * 64734272063int == 4190525979526502275969int);
        assert(4190525979526502275969int * 4190525979526502275969int == 17560507985086551372178648443902537034888961int);
        assert(17560507985086551372178648443902537034888961int * 17560507985086551372178648443902537034888961int * 17560507985086551372178648443902537034888961int == 5415159146684697687550460401140474568738628573006913435871858636492035941711396879313441710995182972510692510296349234507641447681int);
        assert(pow12(64734272063int) == 5415159146684697687550460401140474568738628573006913435871858636492035941711396879313441710995182972510692510296349234507641447681int);
        assert(pow2(11) == 2048);
        assert(52654090776777588736000000000000000000000000000000000000000000000000int * 50216813883093446110686315385661331328818843555712276103168int * 2048int == 5415159145924500258889816634385755907387133625536246260136451005507816265145647104000000000000000000000000000000000000000000000000int);
        assert(5415159145680872238004131542193899748749016396158197467874754329663023383613912638508194891604916890535607860993978735545310253056int <= 5415159145924500258889816634385755907387133625536246260136451005507816265145647104000000000000000000000000000000000000000000000000int < 5415159146684697687550460401140474568738628573006913435871858636492035941711396879313441710995182972510692510296349234507641447681int);
    }
    assert(pow12(t) <= k < pow12(t + 1));
    assert(pow12(t) * pow2(57) <= k * pow2(57) < pow12(t + 1) * pow2(57)) by (nonlinear_arith)
        requires
            pow12(t) <= k < pow12(t + 1),
            pow2(57) > 0,
    ;
}

proof fn lemma_square_monotone(a: int, b: int)
    requires
        0 <= a <= b,
    ensures
        0 <= a * a <= b * b,
        a < b ==> a * a < b * b,
{
    assert(0 <= a * a <= b * b) by (nonlinear_arith)
        requires
            0 <= a <= b,
    ;
    if a < b {
        assert(a * a < b * b) by (nonlinear_arith)
            requires
                0 <= a < b,
        ;
    }
}

proof fn lemma_cube_monotone(a: int, b: int)
    requires
        0 <= a <= b,
    ensures
        0 <= a * a * a <= b * b * b,
        a < b ==> a * a * a < b * b * b,
{
    lemma_square_monotone(a, b);
    let a2 = a * a;
    let b2 = b * b;
    assert(0 <= a2 * a <= b2 * b) by (nonlinear_arith)
        requires
            0 <= a <= b,
            0 <= a2 <= b2,
    ;
    if a < b {
        assert(a2 * a < b2 * b) by (nonlinear_arith)
            requires
                0 <= a < b,
                0 <= a2 < b2,
        ;
    }
}

/// The twelfth power grows with its base, from zero on.
pub proof fn lemma_pow12_monotone(a: int, b: int)
    requires
        0 <= a <= b,
    ensures
        0 <= pow12(a) <= pow12(b),
        a < b ==> pow12(a) < pow12(b),
{
    lemma_square_monotone(a, b);
    lemma_square_monotone(a * a, b * b);
    lemma_cube_monotone((a * a) * (a * a), (b * b) * (b * b));
}

proof fn lemma_pow12_product(a: int, b: int)
    ensures
        pow12(a * b) == pow12(a) * pow12(b),
{
    let a2 = a * a;
    let b2 = b * b;
    let a4 = a2 * a2;
    let b4 = b2 * b2;
    let p = a * b;
    let p2 = p * p;
    let p4 = p2 * p2;
    assert(p2 == a2 * b2) by (nonlinear_arith)
        requires
            p == a * b,
            p2 == p * p,
            a2 == a * a,
            b2 == b * b,
    ;
    assert(p4 == a4 * b4) by (nonlinear_arith)
        requires
            p2 == a2 * b2,
            p4 == p2 * p2,
            a4 == a2 * a2,
            b4 == b2 * b2,
    ;
    let p8 = p4 * p4;
    let a8 = a4 * a4;
    let b8 = b4 * b4;
    assert(p8 == a8 * b8) by (nonlinear_arith)
        requires
            p4 == a4 * b4,
            p8 == p4 * p4,
            a8 == a4 * a4,
            b8 == b4 * b4,
    ;
    assert(p8 * p4 == (a8 * a4) * (b8 * b4)) by (nonlinear_arith)
        requires
            p4 == a4 * b4,
            p8 == a8 * b8,
    ;
}

proof fn lemma_pow12_of_pow2(j: nat)
    ensures
        pow12(pow2(j) as int) == pow2(12 * j),
{
    lemma_pow2_adds(j, j);
    lemma_pow2_adds(2 * j, 2 * j);
    lemma_pow2_adds(4 * j, 4 * j);
    lemma_pow2_adds(8 * j, 4 * j);
    let d = pow2(j) as int;
    let d4 = (d * d) * (d * d);
    assert(d * d == pow2(2 * j));
    assert(d4 == pow2(4 * j));
    assert(d4 * d4 == pow2(8 * j));
    assert(d4 * d4 * d4 == pow2(12 * j));
}

proof fn lemma_cancel(a: int, b: int, c: int)
    requires
        c > 0,
    ensures
        a * c <= b * c ==> a <= b,
        a * c < b * c ==> a < b,
{
    assert(a * c <= b * c ==> a <= b) by (nonlinear_arith)
        requires
            c > 0,
    ;
    assert(a * c < b * c ==> a < b) by (nonlinear_arith)
        requires
            c > 0,
    ;
}

/// `semitone_freq` is the frequency of each semitone, rounded down.
pub proof fn lemma_semitone_freq(semitone: int)
    requires
        0 <= semitone <= 255,
    ensures
        is_semitone_freq(semitone, semitone_freq(semitone)),
        16_351 <= semitone_freq(semitone) <= 40_780_036_010,
{
    let class = semitone % 12;
    let j = (21 - semitone / 12) as nat;
    let d = pow2(j) as int;
    let t = top_octave_freq(class);
    let m = t / d;
    let p57 = pow2(57) as int;
    let pj = pow2(12 * j) as int;
    let a = pow12(440_000);
    let ps = pow2(semitone as nat) as int;
    lemma_pow2_pos(j);
    lemma_pow2_pos(57);
    lemma_pow2_pos(12 * j);
    lemma_top_octave_entry(class);
    lemma_pow2_adds(semitone as nat, 12 * j);
    assert(252 + class == semitone + 12 * j);
    vstd::arithmetic::div_mod::lemma_fundamental_div_mod(t, d);
    vstd::arithmetic::div_mod::lemma_mod_bound(t, d);
    assert(0 <= m && m * d <= t && t + 1 <= (m + 1) * d) by (nonlinear_arith)
        requires
            t == d * m + t % d,
            0 <= t % d < d,
            t >= 0,
            d > 0,
    ;
    lemma_pow12_monotone(m * d, t);
    lemma_pow12_monotone(t + 1, (m + 1) * d);
    lemma_pow12_product(m, d);
    lemma_pow12_product(m + 1, d);
    lemma_pow12_of_pow2(j);
    lemma_pow12_monotone(0, m);
    lemma_pow12_monotone(0, m + 1);
    let lo = pow12(m);
    let hi = pow12(m + 1);
    let tl = pow12(t);
    let th = pow12(t + 1);
    assert(lo * pj <= tl);
    assert(th <= hi * pj);
    assert(tl * p57 <= a * (ps * pj));
    assert(a * (ps * pj) < th * p57);
    assert((lo * p57) * pj <= (a * ps) * pj) by (nonlinear_arith)
        requires
            lo * pj <= tl,
            tl * p57 <= a * (ps * pj),
            p57 > 0,
    ;
    assert((a * ps) * pj < (hi * p57) * pj) by (nonlinear_arith)
        requires
            th <= hi * pj,
            a * (ps * pj) < th * p57,
            p57 > 0,
    ;
    lemma_cancel(lo * p57, a * ps, pj);
    lemma_cancel(a * ps, hi * p57, pj);
    lemma_semitone_freq_range(semitone);
}

proof fn lemma_semitone_freq_range(semitone: int)
    requires
        0 <= semitone <= 255,
    ensures
        16_351 <= semitone_freq(semitone) <= 40_780_036_010,
{
    lemma_semitone_freq_increases_to(0, semitone);
    lemma_semitone_freq_increases_to(semitone, 255);
    lemma2_to64();
    assert(semitone_freq(0) == 16_351) by {
        assert(pow2(21) == 0x200000);
        assert(34_291_786_095int / 0x200000int == 16_351);
    }
    assert(semitone_freq(255) == 40_780_036_010) by {
        assert(pow2(0) == 1);
        assert(255int % 12 == 3 && 255int / 12 == 21);
        assert(40_780_036_010int / 1int == 40_780_036_010);
    }
}

proof fn lemma_div_gap(a: int, b: int, d: int)
    requires
        d > 0,
        0 <= a,
        a + d <= b,
    ensures
        a / d < b / d,
{
    vstd::arithmetic::div_mod::lemma_fundamental_div_mod(a, d);
    vstd::arithmetic::div_mod::lemma_mod_bound(a, d);
    vstd::arithmetic::div_mod::lemma_fundamental_div_mod(b, d);
    vstd::arithmetic::div_mod::lemma_mod_bound(b, d);
    let qa = a / d;
    let qb = b / d;
    assert(qa < qb) by (nonlinear_arith)
        requires
            a == d * qa + a % d,
            b == d * qb + b % d,
            0 <= a % d < d,
            0 <= b % d < d,
            a + d <= b,
            d > 0,
    ;
}

/// Each semitone sounds higher than the one below it.
pub proof fn lemma_semitone_freq_step(semitone: int)
    requires
        0 <= semitone < 255,
    ensures
        semitone_freq(semitone) < semitone_freq(semitone + 1),
{
    let class = semitone % 12;
    let j = (21 - semitone / 12) as nat;
    let d = pow2(j) as int;
    lemma_pow2_pos(j);
    lemma2_to64();
    vstd::arithmetic::power2::lemma_pow2_strictly_increases(j, 22);
    assert(pow2(22) == 0x400000);
    assert(d <= 0x400000);
    if class < 11 {
        assert((semitone + 1) % 12 == class + 1);
        assert((semitone + 1) / 12 == semitone / 12);
        lemma_div_gap(top_octave_freq(class), top_octave_freq(class + 1), d);
    } else {
        assert((semitone + 1) % 12 == 0);
        assert((semitone + 1) / 12 == semitone / 12 + 1);
        assert(j >= 1);
        let half = pow2((j - 1) as nat) as int;
        lemma_pow2_pos((j - 1) as nat);
        vstd::arithmetic::power2::lemma_pow2_unfold(j);
        assert(d == 2 * half);
        let t0 = top_octave_freq(0);
        vstd::arithmetic::div_mod::lemma_div_denominator(2 * t0, 2, half);
        assert((2 * t0) / 2 == t0);
        assert(2 * half == half * 2) by (nonlinear_arith);
        assert(t0 / half == (2 * t0) / d);
        lemma_div_gap(top_octave_freq(11), 2 * t0, d);
    }
}

/// The higher semitone has the higher frequency.
pub proof fn lemma_semitone_freq_increases_to(low: int, high: int)
    requires
        0 <= low <= high <= 255,
    ensures
        semitone_freq(low) <= semitone_freq(high),
        low < high ==> semitone_freq(low) < semitone_freq(high),
    decreases high - low,
{
    if low < high {
        lemma_semitone_freq_increases_to(low, high - 1);
        lemma_semitone_freq_step(high - 1);
    }
}

/// No semitone has two frequencies.
pub proof fn lemma_semitone_freq_unique(semitone: int, first: int, second: int)
    requires
        is_semitone_freq(semitone, first),
        is_semitone_freq(semitone, second),
    ensures
        first == second,
{
    lemma_pow2_pos(57);
    let p57 = pow2(57) as int;
    let k = pow12(440_000) * pow2(semitone as nat);
    if first < second {
        lemma_pow12_monotone(first + 1, second);
        assert(pow12(first + 1) * p57 <= pow12(second) * p57) by (nonlinear_arith)
            requires
                pow12(first + 1) <= pow12(second),
                p57 > 0,
        ;
    }
    if second < first {
        lemma_pow12_monotone(second + 1, first);
        assert(pow12(second + 1) * p57 <= pow12(first) * p57) by (nonlinear_arith)
            requires
                pow12(second + 1) <= pow12(first),
                p57 > 0,
        ;
    }
}

/// How far, in millihertz, a frequency lies from that of a semitone.
pub open spec fn distance(freq: int, semitone: int) -> int {
    let own = semitone_freq(semitone);
    if freq >= own {
        freq - own
    } else {
        own - freq
    }
}

/// Is no semitone from 0 to 255 nearer to the frequency than this one, and
/// no lower semitone as near?
pub open spec fn is_nearest_semitone(freq: int, semitone: int) -> bool {
    &&& 0 <= semitone <= 255
    &&& forall|other: int|
        0 <= other <= 255 ==> distance(freq, semitone) <= #[trigger] distance(freq, other)
    &&& forall|other: int|
        0 <= other < semitone ==> distance(freq, semitone) < #[trigger] distance(freq, other)
}

/// The nearest of the semitones from 0 to `upto`, the lowest of them where
/// several are equally near.
pub open spec fn nearest_upto(freq: int, upto: int) -> int
    decreases upto,
{
    if upto <= 0 {
        0
    } else {
        let best = nearest_upto(freq, upto - 1);
        if distance(freq, upto) < distance(freq, best) {
            upto
        } else {
            best
        }
    }
}

/// The semitone nearest to a frequency.
pub open spec fn nearest_semitone(freq: int) -> int {
    nearest_upto(freq, 255)
}

proof fn lemma_nearest_upto(freq: int, upto: int)
    requires
        0 <= upto,
    ensures
        0 <= nearest_upto(freq, upto) <= upto,
        forall|other: int|
            0 <= other <= upto ==> distance(freq, nearest_upto(freq, upto)) <= #[trigger] distance(
                freq,
                other,
            ),
        forall|other: int|
            0 <= other < nearest_upto(freq, upto) ==> distance(freq, nearest_upto(freq, upto))
                < #[trigger] distance(freq, other),
    decreases upto,
{
    if upto > 0 {
        lemma_nearest_upto(freq, upto - 1);
    }
}

/// `nearest_semitone` names the nearest semitone, and there is no other.
pub proof fn lemma_nearest_semitone(freq: int, semitone: int)
    ensures
        is_nearest_semitone(freq, nearest_semitone(freq)),
        is_nearest_semitone(freq, semitone) ==> semitone == nearest_semitone(freq),
{
    lemma_nearest_upto(freq, 255);
    let best = nearest_semitone(freq);
    if is_nearest_semitone(freq, semitone) {
        assert(distance(freq, semitone) <= distance(freq, best));
        assert(distance(freq, best) <= distance(freq, semitone));
        if semitone < best {
            assert(distance(freq, best) < distance(freq, semitone));
        }
        if best < semitone {
            assert(distance(freq, semitone) < distance(freq, best));
        }
    }
}

/// The note nearest to the frequency of a semitone is that semitone's note.
pub proof fn lemma_nearest_of_semitone_freq(semitone: int)
    requires
        0 <= semitone <= 255,
    ensures
        nearest_semitone(semitone_freq(semitone)) == semitone,
        note_of_semitone(nearest_semitone(semitone_freq(semitone))) == note_of_semitone(semitone),
{
    let freq = semitone_freq(semitone);
    assert(is_nearest_semitone(freq, semitone)) by {
        assert forall|other: int| 0 <= other < semitone implies distance(freq, semitone)
            < #[trigger] distance(freq, other) by {
            lemma_semitone_freq_increases_to(other, semitone);
        }
    }
    lemma_nearest_semitone(freq, semitone);
}

/// A frequency at or above that of `low` and, unless `low` is the highest
/// semitone, below that of the next one has one of the two as its nearest.
proof fn lemma_nearest_between(freq: int, low: int)
    requires
        0 <= low <= 255,
        semitone_freq(low) <= freq,
        low < 255 ==> freq < semitone_freq(low + 1),
    ensures
        low == 255 ==> is_nearest_semitone(freq, low),
        low < 255 && freq - semitone_freq(low) <= semitone_freq(low + 1) - freq
            ==> is_nearest_semitone(freq, low),
        low < 255 && freq - semitone_freq(low) > semitone_freq(low + 1) - freq
            ==> is_nearest_semitone(freq, low + 1),
{
    assert forall|other: int| 0 <= other <= low implies distance(freq, other) == freq
        - semitone_freq(other) && (other < low ==> distance(freq, low) < distance(
        freq,
        other,
    )) by {
        lemma_semitone_freq_increases_to(other, low);
    }
    if low < 255 {
        assert forall|other: int| low < other <= 255 implies distance(freq, other)
            == semitone_freq(other) - freq && distance(freq, low + 1) <= distance(freq, other) by {
            lemma_semitone_freq_increases_to(low + 1, other);
        }
        assert(distance(freq, low) == freq - semitone_freq(low));
        assert(distance(freq, low + 1) == semitone_freq(low + 1) - freq);
        if freq - semitone_freq(low) <= semitone_freq(low + 1) - freq {
            assert forall|other: int| 0 <= other <= 255 implies distance(freq, low)
                <= #[trigger] distance(freq, other) by {
                if other > low {
                    assert(distance(freq, low + 1) <= distance(freq, other));
                }
            }
        } else {
            assert forall|other: int| 0 <= other <= 255 implies distance(freq, low + 1)
                <= #[trigger] distance(freq, other) by {
                if other <= low {
                    assert(distance(freq, low) <= distance(freq, other));
                }
            }
            assert forall|other: int| 0 <= other < low + 1 implies distance(freq, low + 1)
                < #[trigger] distance(freq, other) by {
                assert(distance(freq, low) <= distance(freq, other));
            }
        }
    }
}

/// The frequency of the semitone with the given number.
pub fn freq_of_semitone(semitone: u8) -> (r: MilliHertz)
    ensures
        r == semitone_freq(semitone as int),
        is_semitone_freq(semitone as int, r as int),
        16_351 <= r <= 40_780_036_010,
{
    let octave = semitone / 12;
    let class = semitone % 12;
    let top: u64 = if class == 0 {
        34_291_786_095
    } else if class == 1 {
        36_330_881_807
    } else if class == 2 {
        38_491_228_460
    } else if class == 3 {
        40_780_036_010
    } else if class == 4 {
        43_204_943_139
    } else if class == 5 {
        45_774_042_750
    } else if class == 6 {
        48_495_908_973
    } else if class == 7 {
        51_379_625_784
    } else if class == 8 {
        54_434_817_321
    } else if class == 9 {
        57_671_680_000
    } else if class == 10 {
        61_101_016_549
    } else {
        64_734_272_062
    };
    let halvings: u8 = 21 - octave;
    let mut value: u64 = top;
    let mut done: u8 = 0;
    proof {
        lemma2_to64();
    }
    while done < halvings
        invariant
            done <= halvings,
            value == top as int / (pow2(done as nat) as int),
        decreases halvings - done,
    {
        proof {
            lemma_pow2_pos(done as nat);
            vstd::arithmetic::power2::lemma_pow2_unfold((done + 1) as nat);
            vstd::arithmetic::div_mod::lemma_div_denominator(
                top as int,
                pow2(done as nat) as int,
                2,
            );
        }
        value = value / 2;
        done += 1;
    }
    proof {
        lemma_semitone_freq(semitone as int);
    }
    value
}

impl Note {
    /// The note's frequency in millihertz, rounded down.
    pub fn freq(&self) -> (r: MilliHertz)
        requires
            self.semitone_index() <= 255,
        ensures
            r == semitone_freq(self.semitone_index()),
            is_semitone_freq(self.semitone_index(), r as int),
    {
        freq_of_semitone(self.semitone_number())
    }

    /// The note whose frequency lies nearest to the given one; the lower
    /// note where two are equally near.
    pub fn find_nearest(freq: MilliHertz) -> (r: Note)
        ensures
            r == note_of_semitone(nearest_semitone(freq as int)),
            is_nearest_semitone(freq as int, r.semitone_index()),
    {
        let mut low: u8 = 0;
        let mut high: u8 = 255;
        if freq < freq_of_semitone(0) {
            proof {
                assert(is_nearest_semitone(freq as int, 0)) by {
                    assert forall|other: int| 0 <= other <= 255 implies distance(freq as int, 0)
                        <= #[trigger] distance(freq as int, other) by {
                        lemma_semitone_freq_increases_to(0, other);
                    }
                }
                lemma_nearest_semitone(freq as int, 0);
                lemma_note_of_semitone(0);
            }
            return Note::from_semitone(0);
        }
        if freq >= freq_of_semitone(255) {
            proof {
                lemma_nearest_between(freq as int, 255);
                lemma_nearest_semitone(freq as int, 255);
                lemma_note_of_semitone(255);
            }
            return Note::from_semitone(255);
        }
        while high - low > 1
            invariant
                low < high,
                semitone_freq(low as int) <= freq < semitone_freq(high as int),
            decreases high - low,
        {
            let middle: u8 = low + (high - low) / 2;
            if freq_of_semitone(middle) <= freq {
                low = middle;
            } else {
                high = middle;
            }
        }
        proof {
            lemma_nearest_between(freq as int, low as int);
        }
        let chosen: u8 = if freq - freq_of_semitone(low) <= freq_of_semitone(low + 1) - freq {
            low
        } else {
            low + 1
        };
        proof {
            lemma_nearest_semitone(freq as int, chosen as int);
            lemma_note_of_semitone(chosen as int);
        }
        Note::from_semitone(chosen)
    }
}

} // verus!
