//! The bundled ISO 4217 source table, and the registry generated from it.

use vstd::prelude::*;

use crate::parse::spec_parse_table;
use crate::record::BuildError;
use crate::registry::{spec_build, Registry};

verus! {

/// The text of the bundled source table, at the specification level: what
/// [`iso4217_table`] returns, character for character.
pub open spec fn spec_iso4217_table() -> Seq<char> {
    "CODE\tNUMERIC\tNAME\tUSED_BY\tSYMBOL\tSUBUNIT_SYMBOL\tEXPONENT\tFLAGS\n\
     AED\t784\tUnited Arab Emirates dirham\tAE\tد.إ\tفلس\t2\t\n\
     AFN\t971\tAfghan afghani\tAF\t؋\tپول\t2\t\n\
     ALL\t8\tAlbanian lek\tAL\tL\tq\t2\t\n\
     AMD\t51\tArmenian dram\tAM\t֏\tլումա\t2\t\n\
     ANG\t532\tNetherlands Antillean guilder\tCW;SX\tƒ\t¢\t2\t\n\
     AOA\t973\tAngolan kwanza\tAO\tKz\tcêntimo\t2\t\n\
     ARS\t32\tArgentine peso\tAR\t$\tcentavo\t2\t\n\
     AUD\t36\tAustralian dollar\tAU;CC;CX;HM;KI;NF;NR;TV\t$\tc\t2\t\n\
     AWG\t533\tAruban florin\tAW\tƒ\tc\t2\t\n\
     AZN\t944\tAzerbaijani manat\tAZ\t₼\tqəpik\t2\t\n\
     BAM\t977\tBosnia and Herzegovina convertible mark\tBA\tKM\tfening\t2\t\n\
     BBD\t52\tBarbadian dollar\tBB\t$\t¢\t2\t\n\
     BDT\t50\tBangladeshi taka\tBD\t৳\tpoisha\t2\t\n\
     BGN\t975\tBulgarian lev\tBG\tлв.\tst\t2\t\n\
     BHD\t48\tBahraini dinar\tBH\t.د.ب\tfils\t3\t\n\
     BIF\t108\tBurundian franc\tBI\tFBu\t\t0\t\n\
     BMD\t60\tBermudian dollar\tBM\t$\t¢\t2\t\n\
     BND\t96\tBrunei dollar\tBN\t$\tsen\t2\t\n\
     BOB\t68\tBolivian boliviano\tBO\tBs.\tcentavo\t2\t\n\
     BOV\t984\tBolivian Mvdol\tBO\t\t\t2\tfund\n\
     BRL\t986\tBrazilian real\tBR\tR$\tcentavo\t2\t\n\
     BSD\t44\tBahamian dollar\tBS\t$\t¢\t2\t\n\
     BTN\t64\tBhutanese ngultrum\tBT\tNu.\tchetrum\t2\t\n\
     BWP\t72\tBotswana pula\tBW\tP\tthebe\t2\t\n\
     BYN\t933\tBelarusian ruble\tBY\tBr\tkopeck\t2\t\n\
     BZD\t84\tBelize dollar\tBZ\t$\t¢\t2\t\n\
     CAD\t124\tCanadian dollar\tCA\t$\t¢\t2\t\n\
     CDF\t976\tCongolese franc\tCD\tFC\tcentime\t2\t\n\
     CHE\t947\tWIR euro\tCH\t\t\t2\tfund\n\
     CHF\t756\tSwiss franc\tCH;LI\tFr.\tRp.\t2\t\n\
     CHW\t948\tWIR franc\tCH\t\t\t2\tfund\n\
     CLF\t990\tUnidad de Fomento\tCL\t\t\t4\tfund\n\
     CLP\t152\tChilean peso\tCL\t$\t\t0\t\n\
     CNY\t156\tRenminbi\tCN\t¥\tfen\t2\t\n\
     COP\t170\tColombian peso\tCO\t$\tcentavo\t2\t\n\
     COU\t970\tUnidad de Valor Real\tCO\t\t\t2\tfund\n\
     CRC\t188\tCosta Rican colón\tCR\t₡\tcéntimo\t2\t\n\
     CUC\t931\tCuban convertible peso\tCU\t$\tcentavo\t2\t\n\
     CUP\t192\tCuban peso\tCU\t$\tcentavo\t2\t\n\
     CVE\t132\tCape Verdean escudo\tCV\t$\tcentavo\t2\t\n\
     CZK\t203\tCzech koruna\tCZ\tKč\thaléř\t2\t\n\
     DJF\t262\tDjiboutian franc\tDJ\tFdj\t\t0\t\n\
     DKK\t208\tDanish krone\tDK;FO;GL\tkr\tøre\t2\t\n\
     DOP\t214\tDominican peso\tDO\tRD$\tcentavo\t2\t\n\
     DZD\t12\tAlgerian dinar\tDZ\tدج\tsanteem\t2\t\n\
     EGP\t818\tEgyptian pound\tEG\tE£\tpiastre\t2\t\n\
     ERN\t232\tEritrean nakfa\tER\tNfk\tcent\t2\t\n\
     ETB\t230\tEthiopian birr\tET\tBr\tsantim\t2\t\n\
     EUR\t978\tEuro\tAD;AT;AX;BE;BL;CY;DE;EE;ES;FI;FR;GF;GP;GR;IE;IT;LT;LU;LV;MC;ME;MF;MQ;MT;NL;PM;PT;RE;SI;SK;SM;TF;VA;YT\t€\tc\t2\t\n\
     FJD\t242\tFijian dollar\tFJ\t$\t¢\t2\t\n\
     FKP\t238\tFalkland Islands pound\tFK\t£\tp\t2\t\n\
     GBP\t826\tPound sterling\tGB;GG;IM;IO;JE\t£\tp\t2\t\n\
     GEL\t981\tGeorgian lari\tGE\tლ\ttetri\t2\t\n\
     GHS\t936\tGhanaian cedi\tGH\t₵\tpesewa\t2\t\n\
     GIP\t292\tGibraltar pound\tGI\t£\tp\t2\t\n\
     GMD\t270\tGambian dalasi\tGM\tD\tbutut\t2\t\n\
     GNF\t324\tGuinean franc\tGN\tFG\t\t0\t\n\
     GTQ\t320\tGuatemalan quetzal\tGT\tQ\tcentavo\t2\t\n\
     GYD\t328\tGuyanese dollar\tGY\t$\t¢\t2\t\n\
     HKD\t344\tHong Kong dollar\tHK\t$\t¢\t2\t\n\
     HNL\t340\tHonduran lempira\tHN\tL\tcentavo\t2\t\n\
     HTG\t332\tHaitian gourde\tHT\tG\tcentime\t2\t\n\
     HUF\t348\tHungarian forint\tHU\tFt\tfillér\t2\t\n\
     IDR\t360\tIndonesian rupiah\tID\tRp\tsen\t2\t\n\
     ILS\t376\tIsraeli new shekel\tIL;PS\t₪\tagora\t2\t\n\
     INR\t356\tIndian rupee\tIN;BT\t₹\tpaisa\t2\t\n\
     IQD\t368\tIraqi dinar\tIQ\tع.د\tfils\t3\t\n\
     IRR\t364\tIranian rial\tIR\t﷼\tdinar\t2\t\n\
     ISK\t352\tIcelandic króna\tIS\tkr\t\t0\t\n\
     JMD\t388\tJamaican dollar\tJM\t$\t¢\t2\t\n\
     JOD\t400\tJordanian dinar\tJO\tد.ا\tfils\t3\t\n\
     JPY\t392\tJapanese yen\tJP\t¥\t\t0\t\n\
     KES\t404\tKenyan shilling\tKE\tSh\tcent\t2\t\n\
     KGS\t417\tKyrgyz som\tKG\tс\ttyiyn\t2\t\n\
     KHR\t116\tCambodian riel\tKH\t៛\tsen\t2\t\n\
     KMF\t174\tComorian franc\tKM\tCF\t\t0\t\n\
     KPW\t408\tNorth Korean won\tKP\t₩\tchon\t2\t\n\
     KRW\t410\tSouth Korean won\tKR\t₩\t\t0\t\n\
     KWD\t414\tKuwaiti dinar\tKW\tد.ك\tfils\t3\t\n\
     KYD\t136\tCayman Islands dollar\tKY\t$\t¢\t2\t\n\
     KZT\t398\tKazakhstani tenge\tKZ\t₸\ttıyn\t2\t\n\
     LAK\t418\tLao kip\tLA\t₭\tatt\t2\t\n\
     LBP\t422\tLebanese pound\tLB\tل.ل\tpiastre\t2\t\n\
     LKR\t144\tSri Lankan rupee\tLK\tRs\tcent\t2\t\n\
     LRD\t430\tLiberian dollar\tLR\t$\t¢\t2\t\n\
     LSL\t426\tLesotho loti\tLS\tL\tsente\t2\t\n\
     LYD\t434\tLibyan dinar\tLY\tل.د\tdirham\t3\t\n\
     MAD\t504\tMoroccan dirham\tMA;EH\tد.م.\tcentime\t2\t\n\
     MDL\t498\tMoldovan leu\tMD\tL\tban\t2\t\n\
     MGA\t969\tMalagasy ariary\tMG\tAr\tiraimbilanja\t2\t\n\
     MKD\t807\tMacedonian denar\tMK\tден\tdeni\t2\t\n\
     MMK\t104\tBurmese kyat\tMM\tK\tpya\t2\t\n\
     MNT\t496\tMongolian tögrög\tMN\t₮\tmöngö\t2\t\n\
     MOP\t446\tMacanese pataca\tMO\tMOP$\tavo\t2\t\n\
     MRU\t929\tMauritanian ouguiya\tMR\tUM\tkhoums\t2\t\n\
     MUR\t480\tMauritian rupee\tMU\t₨\tcent\t2\t\n\
     MVR\t462\tMaldivian rufiyaa\tMV\t.ރ\tlaari\t2\t\n\
     MWK\t454\tMalawian kwacha\tMW\tMK\ttambala\t2\t\n\
     MXN\t484\tMexican peso\tMX\t$\tcentavo\t2\t\n\
     MXV\t979\tMexican Unidad de Inversión\tMX\t\t\t2\tfund\n\
     MYR\t458\tMalaysian ringgit\tMY\tRM\tsen\t2\t\n\
     MZN\t943\tMozambican metical\tMZ\tMT\tcentavo\t2\t\n\
     NAD\t516\tNamibian dollar\tNA\t$\t¢\t2\t\n\
     NGN\t566\tNigerian naira\tNG\t₦\tkobo\t2\t\n\
     NIO\t558\tNicaraguan córdoba\tNI\tC$\tcentavo\t2\t\n\
     NOK\t578\tNorwegian krone\tNO;BV;SJ\tkr\tøre\t2\t\n\
     NPR\t524\tNepalese rupee\tNP\t₨\tpaisa\t2\t\n\
     NZD\t554\tNew Zealand dollar\tNZ;CK;NU;PN;TK\t$\t¢\t2\t\n\
     OMR\t512\tOmani rial\tOM\tر.ع.\tbaisa\t3\t\n\
     PAB\t590\tPanamanian balboa\tPA\tB/.\tcentésimo\t2\t\n\
     PEN\t604\tPeruvian sol\tPE\tS/\tcéntimo\t2\t\n\
     PGK\t598\tPapua New Guinean kina\tPG\tK\ttoea\t2\t\n\
     PHP\t608\tPhilippine peso\tPH\t₱\tsentimo\t2\t\n\
     PKR\t586\tPakistani rupee\tPK\t₨\tpaisa\t2\t\n\
     PLN\t985\tPolish złoty\tPL\tzł\tgrosz\t2\t\n\
     PYG\t600\tParaguayan guaraní\tPY\t₲\t\t0\t\n\
     QAR\t634\tQatari riyal\tQA\tر.ق\tdirham\t2\t\n\
     RON\t946\tRomanian leu\tRO\tlei\tban\t2\t\n\
     RSD\t941\tSerbian dinar\tRS\tдин.\tpara\t2\t\n\
     RUB\t643\tRussian ruble\tRU\t₽\tkopeck\t2\t\n\
     RWF\t646\tRwandan franc\tRW\tFRw\t\t0\t\n\
     SAR\t682\tSaudi riyal\tSA\tر.س\thalala\t2\t\n\
     SBD\t90\tSolomon Islands dollar\tSB\t$\t¢\t2\t\n\
     SCR\t690\tSeychellois rupee\tSC\t₨\tcent\t2\t\n\
     SDG\t938\tSudanese pound\tSD\tج.س.\tpiastre\t2\t\n\
     SEK\t752\tSwedish krona\tSE\tkr\töre\t2\t\n\
     SGD\t702\tSingapore dollar\tSG\t$\t¢\t2\t\n\
     SHP\t654\tSaint Helena pound\tSH\t£\tp\t2\t\n\
     SLE\t925\tSierra Leonean leone\tSL\tLe\tcent\t2\t\n\
     SLL\t694\tSierra Leonean leone (old)\tSL\tLe\tcent\t2\tsuperseded(SLE)\n\
     SOS\t706\tSomali shilling\tSO\tSh\tcent\t2\t\n\
     SRD\t968\tSurinamese dollar\tSR\t$\t¢\t2\t\n\
     SSP\t728\tSouth Sudanese pound\tSS\t£\tpiaster\t2\t\n\
     STN\t930\tSão Tomé and Príncipe dobra\tST\tDb\tcêntimo\t2\t\n\
     SVC\t222\tSalvadoran colón\tSV\t₡\tcentavo\t2\t\n\
     SYP\t760\tSyrian pound\tSY\t£S\tpiastre\t2\t\n\
     SZL\t748\tSwazi lilangeni\tSZ\tL\tcent\t2\t\n\
     THB\t764\tThai baht\tTH\t฿\tsatang\t2\t\n\
     TJS\t972\tTajikistani somoni\tTJ\tSM\tdiram\t2\t\n\
     TMT\t934\tTurkmenistani manat\tTM\tm\ttenge\t2\t\n\
     TND\t788\tTunisian dinar\tTN\tد.ت\tmillime\t3\t\n\
     TOP\t776\tTongan paʻanga\tTO\tT$\tseniti\t2\t\n\
     TRY\t949\tTurkish lira\tTR\t₺\tkuruş\t2\t\n\
     TTD\t780\tTrinidad and Tobago dollar\tTT\t$\t¢\t2\t\n\
     TWD\t901\tNew Taiwan dollar\tTW\t$\t¢\t2\t\n\
     TZS\t834\tTanzanian shilling\tTZ\tSh\tcent\t2\t\n\
     UAH\t980\tUkrainian hryvnia\tUA\t₴\tkopiyka\t2\t\n\
     UGX\t800\tUgandan shilling\tUG\tSh\t\t0\t\n\
     USD\t840\tUnited States dollar\tUS;AS;BQ;EC;FM;GU;IO;MH;MP;PR;PW;SV;TC;TL;UM;VG;VI\t$\t¢\t2\t\n\
     USN\t997\tUnited States dollar (next day)\t\t\t\t2\tfund\n\
     UYI\t940\tUruguay Peso en Unidades Indexadas\tUY\t\t\t0\tfund\n\
     UYU\t858\tUruguayan peso\tUY\t$\tcentésimo\t2\t\n\
     UYW\t927\tUnidad Previsional\tUY\t\t\t4\tfund\n\
     UZS\t860\tUzbekistani sum\tUZ\tсўм\ttiyin\t2\t\n\
     VED\t926\tVenezuelan digital bolívar\tVE\tBs.D\tcéntimo\t2\t\n\
     VES\t928\tVenezuelan sovereign bolívar\tVE\tBs.S\tcéntimo\t2\tsuperseded(VED)\n\
     VND\t704\tVietnamese đồng\tVN\t₫\t\t0\t\n\
     VUV\t548\tVanuatu vatu\tVU\tVT\t\t0\t\n\
     WST\t882\tSamoan tālā\tWS\tT\tsene\t2\t\n\
     XAF\t950\tCentral African CFA franc\tCM;CF;CG;GA;GQ;TD\tFCFA\t\t0\t\n\
     XAG\t961\tSilver (one troy ounce)\t\t\t\t\tspecial\n\
     XAU\t959\tGold (one troy ounce)\t\t\t\t\tspecial\n\
     XBA\t955\tEuropean Composite Unit (EURCO)\t\t\t\t\tspecial\n\
     XBB\t956\tEuropean Monetary Unit (E.M.U.-6)\t\t\t\t\tspecial\n\
     XBC\t957\tEuropean Unit of Account 9 (E.U.A.-9)\t\t\t\t\tspecial\n\
     XBD\t958\tEuropean Unit of Account 17 (E.U.A.-17)\t\t\t\t\tspecial\n\
     XCD\t951\tEast Caribbean dollar\tAG;AI;DM;GD;KN;LC;MS;VC\t$\t¢\t2\t\n\
     XDR\t960\tSpecial drawing rights\t\t\t\t\tspecial\n\
     XOF\t952\tWest African CFA franc\tBJ;BF;CI;GW;ML;NE;SN;TG\tCFA\t\t0\t\n\
     XPD\t964\tPalladium (one troy ounce)\t\t\t\t\tspecial\n\
     XPF\t953\tCFP franc\tPF;NC;WF\t₣\t\t0\t\n\
     XPT\t962\tPlatinum (one troy ounce)\t\t\t\t\tspecial\n\
     XSU\t994\tSUCRE\t\t\t\t\tspecial\n\
     XTS\t963\tCode reserved for testing\t\t\t\t\tspecial\n\
     XUA\t965\tADB Unit of Account\t\t\t\t\tspecial\n\
     XXX\t999\tNo currency\t\t¤\t\t\tspecial\n\
     YER\t886\tYemeni rial\tYE\t﷼\tfils\t2\t\n\
     ZAR\t710\tSouth African rand\tZA;LS;NA\tR\tc\t2\t\n\
     ZMW\t967\tZambian kwacha\tZM\tZK\tngwee\t2\t\n\
     ZWL\t932\tZimbabwean dollar\tZW\t$\t¢\t2\t"@
}

/// The bundled source table: tab-separated, one header line, one currency
/// per row, in ascending code order.
pub fn iso4217_table() -> (r: &'static str)
    ensures
        r@ == spec_iso4217_table(),
{
    "CODE\tNUMERIC\tNAME\tUSED_BY\tSYMBOL\tSUBUNIT_SYMBOL\tEXPONENT\tFLAGS\n\
     AED\t784\tUnited Arab Emirates dirham\tAE\tد.إ\tفلس\t2\t\n\
     AFN\t971\tAfghan afghani\tAF\t؋\tپول\t2\t\n\
     ALL\t8\tAlbanian lek\tAL\tL\tq\t2\t\n\
     AMD\t51\tArmenian dram\tAM\t֏\tլումա\t2\t\n\
     ANG\t532\tNetherlands Antillean guilder\tCW;SX\tƒ\t¢\t2\t\n\
     AOA\t973\tAngolan kwanza\tAO\tKz\tcêntimo\t2\t\n\
     ARS\t32\tArgentine peso\tAR\t$\tcentavo\t2\t\n\
     AUD\t36\tAustralian dollar\tAU;CC;CX;HM;KI;NF;NR;TV\t$\tc\t2\t\n\
     AWG\t533\tAruban florin\tAW\tƒ\tc\t2\t\n\
     AZN\t944\tAzerbaijani manat\tAZ\t₼\tqəpik\t2\t\n\
     BAM\t977\tBosnia and Herzegovina convertible mark\tBA\tKM\tfening\t2\t\n\
     BBD\t52\tBarbadian dollar\tBB\t$\t¢\t2\t\n\
     BDT\t50\tBangladeshi taka\tBD\t৳\tpoisha\t2\t\n\
     BGN\t975\tBulgarian lev\tBG\tлв.\tst\t2\t\n\
     BHD\t48\tBahraini dinar\tBH\t.د.ب\tfils\t3\t\n\
     BIF\t108\tBurundian franc\tBI\tFBu\t\t0\t\n\
     BMD\t60\tBermudian dollar\tBM\t$\t¢\t2\t\n\
     BND\t96\tBrunei dollar\tBN\t$\tsen\t2\t\n\
     BOB\t68\tBolivian boliviano\tBO\tBs.\tcentavo\t2\t\n\
     BOV\t984\tBolivian Mvdol\tBO\t\t\t2\tfund\n\
     BRL\t986\tBrazilian real\tBR\tR$\tcentavo\t2\t\n\
     BSD\t44\tBahamian dollar\tBS\t$\t¢\t2\t\n\
     BTN\t64\tBhutanese ngultrum\tBT\tNu.\tchetrum\t2\t\n\
     BWP\t72\tBotswana pula\tBW\tP\tthebe\t2\t\n\
     BYN\t933\tBelarusian ruble\tBY\tBr\tkopeck\t2\t\n\
     BZD\t84\tBelize dollar\tBZ\t$\t¢\t2\t\n\
     CAD\t124\tCanadian dollar\tCA\t$\t¢\t2\t\n\
     CDF\t976\tCongolese franc\tCD\tFC\tcentime\t2\t\n\
     CHE\t947\tWIR euro\tCH\t\t\t2\tfund\n\
     CHF\t756\tSwiss franc\tCH;LI\tFr.\tRp.\t2\t\n\
     CHW\t948\tWIR franc\tCH\t\t\t2\tfund\n\
     CLF\t990\tUnidad de Fomento\tCL\t\t\t4\tfund\n\
     CLP\t152\tChilean peso\tCL\t$\t\t0\t\n\
     CNY\t156\tRenminbi\tCN\t¥\tfen\t2\t\n\
     COP\t170\tColombian peso\tCO\t$\tcentavo\t2\t\n\
     COU\t970\tUnidad de Valor Real\tCO\t\t\t2\tfund\n\
     CRC\t188\tCosta Rican colón\tCR\t₡\tcéntimo\t2\t\n\
     CUC\t931\tCuban convertible peso\tCU\t$\tcentavo\t2\t\n\
     CUP\t192\tCuban peso\tCU\t$\tcentavo\t2\t\n\
     CVE\t132\tCape Verdean escudo\tCV\t$\tcentavo\t2\t\n\
     CZK\t203\tCzech koruna\tCZ\tKč\thaléř\t2\t\n\
     DJF\t262\tDjiboutian franc\tDJ\tFdj\t\t0\t\n\
     DKK\t208\tDanish krone\tDK;FO;GL\tkr\tøre\t2\t\n\
     DOP\t214\tDominican peso\tDO\tRD$\tcentavo\t2\t\n\
     DZD\t12\tAlgerian dinar\tDZ\tدج\tsanteem\t2\t\n\
     EGP\t818\tEgyptian pound\tEG\tE£\tpiastre\t2\t\n\
     ERN\t232\tEritrean nakfa\tER\tNfk\tcent\t2\t\n\
     ETB\t230\tEthiopian birr\tET\tBr\tsantim\t2\t\n\
     EUR\t978\tEuro\tAD;AT;AX;BE;BL;CY;DE;EE;ES;FI;FR;GF;GP;GR;IE;IT;LT;LU;LV;MC;ME;MF;MQ;MT;NL;PM;PT;RE;SI;SK;SM;TF;VA;YT\t€\tc\t2\t\n\
     FJD\t242\tFijian dollar\tFJ\t$\t¢\t2\t\n\
     FKP\t238\tFalkland Islands pound\tFK\t£\tp\t2\t\n\
     GBP\t826\tPound sterling\tGB;GG;IM;IO;JE\t£\tp\t2\t\n\
     GEL\t981\tGeorgian lari\tGE\tლ\ttetri\t2\t\n\
     GHS\t936\tGhanaian cedi\tGH\t₵\tpesewa\t2\t\n\
     GIP\t292\tGibraltar pound\tGI\t£\tp\t2\t\n\
     GMD\t270\tGambian dalasi\tGM\tD\tbutut\t2\t\n\
     GNF\t324\tGuinean franc\tGN\tFG\t\t0\t\n\
     GTQ\t320\tGuatemalan quetzal\tGT\tQ\tcentavo\t2\t\n\
     GYD\t328\tGuyanese dollar\tGY\t$\t¢\t2\t\n\
     HKD\t344\tHong Kong dollar\tHK\t$\t¢\t2\t\n\
     HNL\t340\tHonduran lempira\tHN\tL\tcentavo\t2\t\n\
     HTG\t332\tHaitian gourde\tHT\tG\tcentime\t2\t\n\
     HUF\t348\tHungarian forint\tHU\tFt\tfillér\t2\t\n\
     IDR\t360\tIndonesian rupiah\tID\tRp\tsen\t2\t\n\
     ILS\t376\tIsraeli new shekel\tIL;PS\t₪\tagora\t2\t\n\
     INR\t356\tIndian rupee\tIN;BT\t₹\tpaisa\t2\t\n\
     IQD\t368\tIraqi dinar\tIQ\tع.د\tfils\t3\t\n\
     IRR\t364\tIranian rial\tIR\t﷼\tdinar\t2\t\n\
     ISK\t352\tIcelandic króna\tIS\tkr\t\t0\t\n\
     JMD\t388\tJamaican dollar\tJM\t$\t¢\t2\t\n\
     JOD\t400\tJordanian dinar\tJO\tد.ا\tfils\t3\t\n\
     JPY\t392\tJapanese yen\tJP\t¥\t\t0\t\n\
     KES\t404\tKenyan shilling\tKE\tSh\tcent\t2\t\n\
     KGS\t417\tKyrgyz som\tKG\tс\ttyiyn\t2\t\n\
     KHR\t116\tCambodian riel\tKH\t៛\tsen\t2\t\n\
     KMF\t174\tComorian franc\tKM\tCF\t\t0\t\n\
     KPW\t408\tNorth Korean won\tKP\t₩\tchon\t2\t\n\
     KRW\t410\tSouth Korean won\tKR\t₩\t\t0\t\n\
     KWD\t414\tKuwaiti dinar\tKW\tد.ك\tfils\t3\t\n\
     KYD\t136\tCayman Islands dollar\tKY\t$\t¢\t2\t\n\
     KZT\t398\tKazakhstani tenge\tKZ\t₸\ttıyn\t2\t\n\
     LAK\t418\tLao kip\tLA\t₭\tatt\t2\t\n\
     LBP\t422\tLebanese pound\tLB\tل.ل\tpiastre\t2\t\n\
     LKR\t144\tSri Lankan rupee\tLK\tRs\tcent\t2\t\n\
     LRD\t430\tLiberian dollar\tLR\t$\t¢\t2\t\n\
     LSL\t426\tLesotho loti\tLS\tL\tsente\t2\t\n\
     LYD\t434\tLibyan dinar\tLY\tل.د\tdirham\t3\t\n\
     MAD\t504\tMoroccan dirham\tMA;EH\tد.م.\tcentime\t2\t\n\
     MDL\t498\tMoldovan leu\tMD\tL\tban\t2\t\n\
     MGA\t969\tMalagasy ariary\tMG\tAr\tiraimbilanja\t2\t\n\
     MKD\t807\tMacedonian denar\tMK\tден\tdeni\t2\t\n\
     MMK\t104\tBurmese kyat\tMM\tK\tpya\t2\t\n\
     MNT\t496\tMongolian tögrög\tMN\t₮\tmöngö\t2\t\n\
     MOP\t446\tMacanese pataca\tMO\tMOP$\tavo\t2\t\n\
     MRU\t929\tMauritanian ouguiya\tMR\tUM\tkhoums\t2\t\n\
     MUR\t480\tMauritian rupee\tMU\t₨\tcent\t2\t\n\
     MVR\t462\tMaldivian rufiyaa\tMV\t.ރ\tlaari\t2\t\n\
     MWK\t454\tMalawian kwacha\tMW\tMK\ttambala\t2\t\n\
     MXN\t484\tMexican peso\tMX\t$\tcentavo\t2\t\n\
     MXV\t979\tMexican Unidad de Inversión\tMX\t\t\t2\tfund\n\
     MYR\t458\tMalaysian ringgit\tMY\tRM\tsen\t2\t\n\
     MZN\t943\tMozambican metical\tMZ\tMT\tcentavo\t2\t\n\
     NAD\t516\tNamibian dollar\tNA\t$\t¢\t2\t\n\
     NGN\t566\tNigerian naira\tNG\t₦\tkobo\t2\t\n\
     NIO\t558\tNicaraguan córdoba\tNI\tC$\tcentavo\t2\t\n\
     NOK\t578\tNorwegian krone\tNO;BV;SJ\tkr\tøre\t2\t\n\
     NPR\t524\tNepalese rupee\tNP\t₨\tpaisa\t2\t\n\
     NZD\t554\tNew Zealand dollar\tNZ;CK;NU;PN;TK\t$\t¢\t2\t\n\
     OMR\t512\tOmani rial\tOM\tر.ع.\tbaisa\t3\t\n\
     PAB\t590\tPanamanian balboa\tPA\tB/.\tcentésimo\t2\t\n\
     PEN\t604\tPeruvian sol\tPE\tS/\tcéntimo\t2\t\n\
     PGK\t598\tPapua New Guinean kina\tPG\tK\ttoea\t2\t\n\
     PHP\t608\tPhilippine peso\tPH\t₱\tsentimo\t2\t\n\
     PKR\t586\tPakistani rupee\tPK\t₨\tpaisa\t2\t\n\
     PLN\t985\tPolish złoty\tPL\tzł\tgrosz\t2\t\n\
     PYG\t600\tParaguayan guaraní\tPY\t₲\t\t0\t\n\
     QAR\t634\tQatari riyal\tQA\tر.ق\tdirham\t2\t\n\
     RON\t946\tRomanian leu\tRO\tlei\tban\t2\t\n\
     RSD\t941\tSerbian dinar\tRS\tдин.\tpara\t2\t\n\
     RUB\t643\tRussian ruble\tRU\t₽\tkopeck\t2\t\n\
     RWF\t646\tRwandan franc\tRW\tFRw\t\t0\t\n\
     SAR\t682\tSaudi riyal\tSA\tر.س\thalala\t2\t\n\
     SBD\t90\tSolomon Islands dollar\tSB\t$\t¢\t2\t\n\
     SCR\t690\tSeychellois rupee\tSC\t₨\tcent\t2\t\n\
     SDG\t938\tSudanese pound\tSD\tج.س.\tpiastre\t2\t\n\
     SEK\t752\tSwedish krona\tSE\tkr\töre\t2\t\n\
     SGD\t702\tSingapore dollar\tSG\t$\t¢\t2\t\n\
     SHP\t654\tSaint Helena pound\tSH\t£\tp\t2\t\n\
     SLE\t925\tSierra Leonean leone\tSL\tLe\tcent\t2\t\n\
     SLL\t694\tSierra Leonean leone (old)\tSL\tLe\tcent\t2\tsuperseded(SLE)\n\
     SOS\t706\tSomali shilling\tSO\tSh\tcent\t2\t\n\
     SRD\t968\tSurinamese dollar\tSR\t$\t¢\t2\t\n\
     SSP\t728\tSouth Sudanese pound\tSS\t£\tpiaster\t2\t\n\
     STN\t930\tSão Tomé and Príncipe dobra\tST\tDb\tcêntimo\t2\t\n\
     SVC\t222\tSalvadoran colón\tSV\t₡\tcentavo\t2\t\n\
     SYP\t760\tSyrian pound\tSY\t£S\tpiastre\t2\t\n\
     SZL\t748\tSwazi lilangeni\tSZ\tL\tcent\t2\t\n\
     THB\t764\tThai baht\tTH\t฿\tsatang\t2\t\n\
     TJS\t972\tTajikistani somoni\tTJ\tSM\tdiram\t2\t\n\
     TMT\t934\tTurkmenistani manat\tTM\tm\ttenge\t2\t\n\
     TND\t788\tTunisian dinar\tTN\tد.ت\tmillime\t3\t\n\
     TOP\t776\tTongan paʻanga\tTO\tT$\tseniti\t2\t\n\
     TRY\t949\tTurkish lira\tTR\t₺\tkuruş\t2\t\n\
     TTD\t780\tTrinidad and Tobago dollar\tTT\t$\t¢\t2\t\n\
     TWD\t901\tNew Taiwan dollar\tTW\t$\t¢\t2\t\n\
     TZS\t834\tTanzanian shilling\tTZ\tSh\tcent\t2\t\n\
     UAH\t980\tUkrainian hryvnia\tUA\t₴\tkopiyka\t2\t\n\
     UGX\t800\tUgandan shilling\tUG\tSh\t\t0\t\n\
     USD\t840\tUnited States dollar\tUS;AS;BQ;EC;FM;GU;IO;MH;MP;PR;PW;SV;TC;TL;UM;VG;VI\t$\t¢\t2\t\n\
     USN\t997\tUnited States dollar (next day)\t\t\t\t2\tfund\n\
     UYI\t940\tUruguay Peso en Unidades Indexadas\tUY\t\t\t0\tfund\n\
     UYU\t858\tUruguayan peso\tUY\t$\tcentésimo\t2\t\n\
     UYW\t927\tUnidad Previsional\tUY\t\t\t4\tfund\n\
     UZS\t860\tUzbekistani sum\tUZ\tсўм\ttiyin\t2\t\n\
     VED\t926\tVenezuelan digital bolívar\tVE\tBs.D\tcéntimo\t2\t\n\
     VES\t928\tVenezuelan sovereign bolívar\tVE\tBs.S\tcéntimo\t2\tsuperseded(VED)\n\
     VND\t704\tVietnamese đồng\tVN\t₫\t\t0\t\n\
     VUV\t548\tVanuatu vatu\tVU\tVT\t\t0\t\n\
     WST\t882\tSamoan tālā\tWS\tT\tsene\t2\t\n\
     XAF\t950\tCentral African CFA franc\tCM;CF;CG;GA;GQ;TD\tFCFA\t\t0\t\n\
     XAG\t961\tSilver (one troy ounce)\t\t\t\t\tspecial\n\
     XAU\t959\tGold (one troy ounce)\t\t\t\t\tspecial\n\
     XBA\t955\tEuropean Composite Unit (EURCO)\t\t\t\t\tspecial\n\
     XBB\t956\tEuropean Monetary Unit (E.M.U.-6)\t\t\t\t\tspecial\n\
     XBC\t957\tEuropean Unit of Account 9 (E.U.A.-9)\t\t\t\t\tspecial\n\
     XBD\t958\tEuropean Unit of Account 17 (E.U.A.-17)\t\t\t\t\tspecial\n\
     XCD\t951\tEast Caribbean dollar\tAG;AI;DM;GD;KN;LC;MS;VC\t$\t¢\t2\t\n\
     XDR\t960\tSpecial drawing rights\t\t\t\t\tspecial\n\
     XOF\t952\tWest African CFA franc\tBJ;BF;CI;GW;ML;NE;SN;TG\tCFA\t\t0\t\n\
     XPD\t964\tPalladium (one troy ounce)\t\t\t\t\tspecial\n\
     XPF\t953\tCFP franc\tPF;NC;WF\t₣\t\t0\t\n\
     XPT\t962\tPlatinum (one troy ounce)\t\t\t\t\tspecial\n\
     XSU\t994\tSUCRE\t\t\t\t\tspecial\n\
     XTS\t963\tCode reserved for testing\t\t\t\t\tspecial\n\
     XUA\t965\tADB Unit of Account\t\t\t\t\tspecial\n\
     XXX\t999\tNo currency\t\t¤\t\t\tspecial\n\
     YER\t886\tYemeni rial\tYE\t﷼\tfils\t2\t\n\
     ZAR\t710\tSouth African rand\tZA;LS;NA\tR\tc\t2\t\n\
     ZMW\t967\tZambian kwacha\tZM\tZK\tngwee\t2\t\n\
     ZWL\t932\tZimbabwean dollar\tZW\t$\t¢\t2\t"
}

impl Registry {
    /// The registry of the bundled ISO 4217 table: every currency, no row
    /// filter. Exactly the result of loading and generating from
    /// [`spec_iso4217_table`]; generation errors are fatal, and a registry is
    /// only returned when the whole table is structurally consistent.
    pub fn new() -> (r: Result<Registry, BuildError>)
        ensures
            match spec_parse_table(spec_iso4217_table()) {
                Err(e) => r matches Err(e2) && e2 == e,
                Ok(ms) => match spec_build(ms, None) {
                    Ok(frs) => r matches Ok(reg) && reg.wf() && reg@ == frs,
                    Err(e) => r matches Err(e2) && e2 == e,
                },
            },
    {
        Registry::from_table(iso4217_table(), None)
    }
}

} // verus!
