//! The word lists that make up the spell checker's dictionary of common
//! words, one word per line.
use vstd::prelude::*;

verus! {

/// Frequent English words.
pub const COMMON_WORDS: &'static str = "the\nof\nand\nto\na\nin\nfor\nis\non\nthat\nby\nthis\nwith\ni\nyou\nit\nnot\nor\nbe\nare\nfrom\nat\nas\nyour\nall\nhave\nnew\nmore\nan\nwas\nwe\nwill\nhome\ncan\nus\nabout\nif\npage\nmy\nhas\nsearch\nfree\nbut\nour\none\nother\ndo\nno\ninformation\ntime\nthey\nsite\nhe\nup\nmay\nwhat\nwhich\ntheir\nnews\nout\nuse\nany\nthere\nsee\nonly\nso\nhis\nwhen\ncontact\nhere\nbusiness\nwho\nweb\nalso\nnow\nhelp\nget\nview\nonline\nfirst\nbeen\nwould\nhow\nwere\nme\nservices\nsome\nthese\nclick\nits\nlike\nservice\nthan\nfind\nprice\ndate\nback\ntop\npeople\nhad\nlist\nname\njust\nover\nstate\nyear\nday\ninto\nemail\ntwo\nhealth\nworld\nnext\nused\ngo\nwork\nlast\nmost\nproducts\nmusic\nbuy\ndata\nmake\nthem\nshould\nproduct\nsystem\npost\nher\ncity\nadd\npolicy\nnumber\nsuch\nplease\navailable\nsupport\nmessage\nafter\nbest\nsoftware\nthen\ngood\nvideo\nwell\nwhere\ninfo\nrights\npublic\nbooks\nhigh\nschool\nthrough\neach\nlinks\nshe\nreview\nyears\norder\nvery\nprivacy\nbook\nitems\ncompany\nread\ngroup\nneed\nmany\nuser\nsaid\ndoes\nset\nunder\ngeneral\nresearch\nuniversity\nmail\nfull\nmap\nreviews\nprogram\nlife\nknow\ngames\nway\ndays\nmanagement\npart\ncould\ngreat\nunited\nreal\nitem\ninternational\ncenter\nmust\nstore\ntravel\ncomments\nmade\ndevelopment\nreport\noff\nmember\ndetails\nline\nterms\nbefore\ndid\nsend\nright\ntype\nbecause\nlocal\nthose\nusing\nresults\noffice\neducation\nnational\ncar\ndesign\ntake\nposted\ninternet\naddress\ncommunity\nwithin\nstates\narea\nwant\nphone\nshipping\nreserved\nsubject\nbetween\nforum\nfamily\nlong\nbased\ncode\nshow\neven\nblack\ncheck\nspecial\nprices\nwebsite\nindex\nbeing\nwomen\nmuch\nsign\nfile\nlink\nopen\ntoday\ntechnology\nsouth\ncase\nproject\nsame\npages\nversion\nsection\nown\nfound\nsports\nhouse\nrelated\nsecurity\nboth\ncounty\namerican\nphoto\ngame\nmembers\npower\nwhile\ncare\nnetwork\ndown\ncomputer\nsystems\nthree\ntotal\nplace\nend\nfollowing\ndownload\nhim\nwithout\nper\naccess\nthink\nnorth\nresources\ncurrent\nposts\nbig\nmedia\nlaw\ncontrol\nwater\nhistory\npictures\nsize\nart\npersonal\nsince\nincluding\nguide\nshop\ndirectory\nboard\nlocation\nchange\nwhite\ntext\nsmall\nrating\nrate\ngovernment\nchildren\nduring\nreturn\nstudents\nshopping\naccount\ntimes\nsites\nlevel\ndigital\nprofile\nprevious\nform\nevents\nlove\nold\nmain\ncall\nhours\nimage\ndepartment\ntitle\ndescription\ninsurance\nanother\nwhy\nshall\nproperty\nclass\nstill\nmoney\nquality\nevery\nlisting\ncontent\ncountry\nprivate\nlittle\nvisit\nsave\ntools\nlow\nreply\ncustomer\ncompare\nmovies\ninclude\ncollege\nvalue\narticle\nman\ncard\njobs\nprovide\nfood\nsource\nauthor\ndifferent\npress\nlearn\nsale\naround\nprint\ncourse\njob\nprocess\nroom\nstock\ntraining\ntoo\ncredit\npoint\njoin\nscience\nmen\ncategories\nadvanced\nwest\nsales\nlook\nenglish\nleft\nteam\nestate\nbox\nconditions\nselect\nwindows\nphotos\nthread\nweek\ncategory\nnote\nlive\nlarge\ngallery\ntable\nregister\nhowever\nmarket\nlibrary\nreally\naction\nstart\nseries\nmodel\nfeatures\nair\nindustry\nplan\nhuman\nprovided\nyes\nrequired\nsecond\nhot\naccessories\ncost\nmovie\nforums\nbetter\nsay\nquestions\ngoing\nmedical\ntest\nfriend\ncome\nserver\nstudy\napplication\ncart\nstaff\narticles\nfeedback\nagain\nplay\nlooking\nissues\nnever\nusers\ncomplete\nstreet\ntopic\ncomment\nfinancial\nthings\nworking\nagainst\nstandard\ntax\nperson\nbelow\nmobile\nless\ngot\nblog\nparty\npayment\nequipment\nlogin\nstudent\nlet\nprograms\noffers\nlegal\nabove\nrecent\npark\nstores\nside\nact\nproblem\nred\ngive\nmemory\nperformance\nsocial\nquote\nlanguage\nstory\nsell\noptions\nexperience\nrates\ncreate\nkey\nbody\nyoung\nimportant\nfield\nfew\neast\npaper\nsingle\nage\nactivities\nclub\nexample\ngirls\nadditional\npassword\nlatest\nsomething\nroad\ngift\nquestion\nchanges\nnight\nhard\npay\nfour\nstatus\nbrowse\nissue\nrange\nbuilding\nseller\ncourt\nalways\nresult\naudio\nlight\nwrite\nwar\noffer\nblue\ngroups\neasy\ngiven\nfiles\nevent\nrelease\nanalysis\nrequest\nfax\nmaking\npicture\nneeds\npossible\nmight\nprofessional\nyet\nmonth\nmajor\nstar\nareas\nfuture\nspace\ncommittee\nhand\nsun\ncards\nproblems\nmeeting\nbecome\ninterest\nchild\nkeep\nenter\nshare\nsimilar\ngarden\nschools\nmillion\nadded\nreference\ncompanies\nlisted\nbaby\nlearning\nenergy\nrun\ndelivery\nnet\npopular\nterm\nfilm\nstories\nput\ncomputers\njournal\nreports\ntry\nwelcome\ncentral\nimages\npresident\nnotice\noriginal\nhead\nradio\nuntil\ncell\ncolor\nself\ncouncil\naway\nincludes\ntrack\ndiscussion\narchive\nonce\nothers\nentertainment\nagreement\nformat\nleast\nsociety\nmonths\nlog\nsafety\nfriends\nsure\ntrade\nedition\ncars\nmessages\nmarketing\ntell\nfurther\nupdated\nassociation\nable\nhaving\nprovides\nfun\nalready\ngreen\nstudies\nclose\ncommon\ndrive\nspecific\nseveral\ngold\nliving\ncollection\ncalled\nshort\narts\nlot\nask\ndisplay\nlimited\nsolutions\nmeans\ndirector\ndaily\nbeach\npast\nnatural\nwhether\ndue\nelectronics\nfive\nupon\nperiod\nplanning\ndatabase\nsays\nofficial\nweather\nland\naverage\ndone\ntechnical\nwindow\nregion\nisland\nrecord\ndirect\nconference\nenvironment\nrecords\ndistrict\ncalendar\ncosts\nstyle\nfront\nstatement\nupdate\nparts\never\ndownloads\nearly\nmiles\nsound\nresource\npresent\napplications\neither\nago\ndocument\nword\nworks\nmaterial\nbill\nwritten\ntalk\nfederal\nhosting\nrules\nfinal\nadult\ntickets\nthing\ncentre\nrequirements\nvia\ncheap\nkids\nfinance\ntrue\nminutes\nelse\nmark\nthird\nrock\ngifts\nreading\ntopics\nbad\nindividual\ntips\nplus\nauto\ncover\nusually\nedit\ntogether\nvideos\npercent\nfast\nfunction\nfact\nunit\ngetting\nglobal\ntech\nmeet\nfar\neconomic\nplayer\nprojects\noften\nsubscribe\nsubmit\namount\nwatch\nincluded\nfeel\nthough\nbank\nrisk\nthanks\neverything\ndeals\nvarious\nwords\nproduction\ncommercial\nweight\ntown\nheart\nadvertising\nreceived\nchoose\ntreatment\nnewsletter\narchives\npoints\nknowledge\nmagazine\nerror\ncamera\ngirl\ncurrently\nconstruction\ntoys\nregistered\nclear\ngolf\nreceive\ndomain\nmethods\nchapter\nmakes\nprotection\npolicies\nloan\nwide\nbeauty\nmanager\nposition\ntaken\nsort\nlistings\nmodels\nknown\nhalf\ncases\nstep\nengineering\nsimple\nquick\nnone\nwireless\nlicense\nfriday\nlake\nwhole\nannual\npublished\nlater\nbasic\nshows\ncorporate\nchurch\nmethod\npurchase\ncustomers\nactive\nresponse\npractice\nhardware\nfigure\nmaterials\nfire\nholiday\nchat\nenough\ndesigned\nalong\namong\ndeath\nwriting\nspeed\ncountries\nloss\nface\nbrand\ndiscount\nhigher\neffects\ncreated\nremember\nstandards\noil\nbit\nyellow\npolitical\nincrease\nadvertise\nkingdom\nbase\nnear\nenvironmental\nthought\nstuff\nstorage\ndoing\nloans\nshoes\nentry\nstay\nnature\norders\navailability\nsummary\nturn\nmean\ngrowth\nnotes\nagency\nking\nmonday\neuropean\nactivity\ncopy\nalthough\ndrug\nwestern\nincome\nforce\ncash\nemployment\noverall\nriver\ncommission\npackage\ncontents\nseen\nplayers\nengine\nport\nalbum\nregional\nstop\nsupplies\nstarted\nadministration\nbar\ninstitute\nviews\nplans\ndouble\ndog\nbuild\nscreen\nexchange\ntypes\nsoon\nlines\nelectronic\ncontinue\nacross\nbenefits\nneeded\nseason\napply\nsomeone\nheld\nanything\nprinter\ncondition\neffective\nbelieve\norganization\neffect\nasked\nmind\nsunday\nselection\nlost\ntour\nmenu\nvolume\ncross\nanyone\nhope\nsilver\ncorporation\nwish\ninside\nsolution\nrole\nrather\nweeks\naddition\ncame\nsupply\nnothing\ncertain\nexecutive\nrunning\nlower\nnecessary\nunion\naccording\nclothing\nparticular\nfine\nnames\nhour\ngas\nskills\nsix\nadvice\ncareer\nmilitary\nrental\ndecision\nleave\nhuge\nwoman\nfacilities\nkind\nsellers\nmiddle\nmove\ncable\nopportunities\ntaking\nvalues\ndivision\ncoming\ntuesday\nobject\nappropriate\nmachine\nlogo\nlength\nactually\nnice\nscore\nstatistics\nclient\nreturns\ncapital\nfollow\nsample\ninvestment\nsent\nshown\nsaturday\nculture\nband\nflash\nlead\nchoice\nwent\nstarting\nregistration\nthursday\ncourses\nconsumer\nairport\nforeign\nartist\noutside\nfurniture\nlevels\nchannel\nletter\nmode\nphones\nideas\nwednesday\nstructure\nfund\nsummer\nallow\ndegree\ncontract\nbutton\nreleases\nhomes\nsuper\nmale\nmatter\ncustom\nalmost\ntook\nlocated\nmultiple\ndistribution\neditor\nindustrial\ncause\npotential\nsong\nlate\nfall\nfeatured\nidea\nrooms\nfemale\nresponsible\ncommunications\nwin\nassociated\nprimary\nnumbers\nreason\ntool\nbrowser\nspring\nfoundation\nanswer\nvoice\nfriendly\nschedule\ndocuments\ncommunication\npurpose\nfeature\nbed\ncomes\npolice\neveryone\nindependent\napproach\ncameras\nbrown\nphysical\noperating\nhill\nmaps\nmedicine\ndeal\nhold\nratings\nforms\nglass\nhappy\nsmith\nwanted\ndeveloped\nthank\nsafe\nunique\nsurvey\nprior\ntelephone\nsport\nready\nfeed\nanimal\nsources\npopulation\nregular\nsecure\nnavigation\noperations\ntherefore\nsimply\nevidence\nstation\nround\nfavorite\nunderstand\noption\nmaster\nvalley\nrecently\nprobably\nrentals\nsea\nbuilt\npublications\nblood\ncut\nworldwide\nimprove\nconnection\npublisher\nhall\nlarger\nnetworks\nearth\nparents\nimpact\ntransfer\nintroduction\nkitchen\nstrong\nwedding\nproperties\nhospital\nground\noverview\nship\naccommodation\nowners\ndisease\nexcellent\npaid\nperfect\nhair\nopportunity\nkit\nclassic\nbasis\ncommand\ncities\nexpress\naward\ndistance\ntree\nassessment\nensure\nthus\nwall\ninvolved\nextra\nespecially\ninterface\npartners\nbudget\nrated\nguides\nsuccess\nmaximum\noperation\nexisting\nquite\nselected\nboy\npatients\nrestaurants\nbeautiful\nwarning\nwine\nlocations\nhorse\nvote\nforward\nflowers\nstars\nsignificant\nlists\ntechnologies\nowner\nretail\nanimals\nuseful\ndirectly\nmanufacturer\nways\nson\nproviding\nrule\nhousing\ntakes\nbring\ncatalog\nsearches\ntrying\nmother\nauthority\nconsidered\ntold\ntraffic\nprogramme\njoined\ninput\nstrategy\nfeet\nagent\nvalid\nmodern\nsenior\nteaching\ndoor\ngrand\ntesting\ntrial\ncharge\nunits\ninstead\ncool\nnormal\nwrote\nenterprise\nships\nentire\neducational\nleading\nmetal\npositive\nfitness\nopinion\nfootball\nabstract\nuses\noutput\nfunds\ngreater\nlikely\ndevelop\nemployees\nartists\nalternative\nprocessing\nresponsibility\nresolution\nguest\nseems\npublication\npass\nrelations\ntrust\nvan\ncontains\nsession\nphotography\nrepublic\nfees\ncomponents\nvacation\ncentury\nacademic\nassistance\ncompleted\nskin\ngraphics\nexpected\nring\ngrade\ndating\nmountain\norganizations\nfilter\nmailing\nvehicle\nlonger\nconsider\nnorthern\nbehind\npanel\nfloor\nbuying\nmatch\nproposed\ndefault\nrequire\nboys\noutdoor\ndeep\nmorning\notherwise\nallows\nrest\nplant\nreported\nhit\ntransportation\npool\npolitics\npartner\nauthors\nboards\nfaculty\nparties\nfish\nmembership\nmission\neye\nstring\nsense\nmodified\npack\nreleased\nstage\ninternal\ngoods\nrecommended\nborn\nunless\ndetailed\nrace\napproved\nbackground\ntarget\nexcept\ncharacter\nability\nmaybe\nfunctions\nmoving\nbrands\nplaces\npretty\nsouthern\nyourself\nwinter\nbattery\nyouth\npressure\nsubmitted\ndebt\nkeywords\nmedium\ntelevision\ninterested\ncore\nbreak\npurposes\nthroughout\nsets\ndance\nwood\nitself\ndefined\npapers\nplaying\nawards\nfee\nstudio\nreader\nvirtual\ndevice\nestablished\nanswers\nrent\nremote\ndark\nprogramming\nexternal\nregarding\ninstructions\noffered\ntheory\nenjoy\nremove\naid\nsurface\nminimum\nvisual\nhost\nvariety\nteachers\nmanual\nblock\nsubjects\nagents\nincreased\nrepair\nfair\ncivil\nsteel\nunderstanding\nsongs\nfixed\nwrong\nbeginning\nhands\nassociates\nfinally\nupdates\ndesktop\nclasses\ngets\nsector\ncapacity\nrequires\nfat\nfully\nfather\nelectric\nsaw\ninstruments\nquotes\nofficer\ndriver\nbusinesses\ndead\nrespect\nunknown\nspecified\nrestaurant\ntrip\nworth\nprocedures\npoor\nteacher\neyes\nrelationship\nworkers\nfarm\npeace\ntraditional\ncampus\nshowing\ncreative\ncoast\nbenefit\nprogress\nfunding\ndevices\nlord\ngrant\nagree\nfiction\nhear\nsometimes\nwatches\ncareers\nbeyond\ngoes\nfamilies\nled\nmuseum\nthemselves\ntransport\ninteresting\nwife\nevaluation\naccepted\nformer\nimplementation\nten\nzone\ncomplex\ncat\nreferences\npresented\nflat\nflow\nagencies\nliterature\nrespective\nparent\nsetting\nscale\nstand\neconomy\nhighest\nhelpful\nmonthly\ncritical\nframe\nmusical\ndefinition\nsecretary\nnetworking\npath\nemployee\nchief\ngives\nbottom\nmagazines\npackages\ndetail\nlaws\nchanged\npet\nheard\nbegin\nindividuals\nroyal\nclean\nswitch\nlargest\nguy\ntitles\nrelevant\nguidelines\njustice\nconnect\ncup\nbasket\napplied\nweekly\ninstallation\ndescribed\ndemand\nsuite\nsquare\nattention\nadvance\nskip\ndiet\narmy\nauction\ngear\ndifference\nallowed\ncorrect\nnation\nselling\nlots\npiece\nsheet\nfirm\nseven\nolder\nregulations\nelements\nspecies\njump\ncells\nmodule\nresort\nfacility\nrandom\npricing\ncertificate\nminister\nmotion\nlooks\nfashion\ndirections\nvisitors\ndocumentation\nmonitor\ntrading\nforest\ncalls\nwhose\ncoverage\ncouple\ngiving\nchance\nvision\nball\nending\nclients\nactions\nlisten\ndiscuss\naccept\ngoal\nsuccessful\nsold\nwind\ncommunities\nclinical\nsituation\nsciences\nmarkets\nlowest\nhighly\npublishing\nappear\nemergency\ndeveloping\nlives\ncurrency\nleather\ndetermine\ntemperature\npalm\nannouncements\npatient\nactual\nhistorical\nstone\ncommerce\nperhaps\npersons\ndifficult\nscientific\nsatellite\nfit\ntests\nvillage\naccounts\nmet\npain\nparticularly\nfactors\ncoffee\nsettings\nbuyer\ncultural\neasily\nedge\nfunctional\nroot\nclosed\nholidays\nice\npink\nbalance\nmonitoring\ngraduate\nreplies\nshot\narchitecture\ninitial\nlabel\nthinking\nrecommend\nleague\nwaste\nminute\nbus\nprovider\noptional\ndictionary\ncold\naccounting\nmanufacturing\nsections\nchair\nfishing\neffort\nphase\nfields\nbag\nfantasy\nletters\nmotor\nprofessor\ncontext\ninstall\nshirt\ngenerally\ncontinued\nfoot\nmass\ncrime\ncount\ntechniques\nquickly\ndollars\nwebsites\nreligion\nclaim\ndriving\npermission\nsurgery\npatch\nheat\nwild\nmeasures\ngeneration\nmiss\nchemical\ndoctor\ntask\nreduce\nbrought\nhimself\nnor\ncomponent\nenable\nexercise\nbug\nguarantee\nleader\ndiamond\nprocesses\nsoft\nservers\nalone\nmeetings\nseconds\nkeyword\ninterests\nflight\ncongress\nfuel\nusername\nwalk\nproduced\nwait\nsupported\npocket\nfreedom\nargument\ncompetition\ncreating\ndrugs\njoint\npremium\nproviders\nfresh\ncharacters\nattorney\nupgrade\nfactor\ngrowing\nthousands\nstream\napartments\npick\nhearing\neastern\nauctions\ntherapy\nentries\ndates\ngenerated\nsigned\nupper\nadministrative\nserious\nprime\nlimit\nbegan\nsteps\nerrors\nshops\nefforts\ninformed\nthoughts\ncreek\nworked\nquantity\nurban\npractices\nsorted\nreporting\nessential\nmyself\ntours\nplatform\nload\naffiliate\nlabor\nimmediately\nadmin\nnursing\ndefense\nmachines\ndesignated\ntags\nheavy\ncovered\nrecovery\nguys\nintegrated\nconfiguration\nmerchant\ncomprehensive\nexpert\nuniversal\nprotect\ndrop\nsolid\npresentation\nlanguages\nbecame\norange\ncompliance\nvehicles\nprevent\ntheme\nrich\ncampaign\nmarine\nimprovement\nguitar\nfinding\nexamples\nsaying\nspirit\nclaims\nchallenge\nacceptance\nstrategies\nseem\naffairs\ntouch\nintended\ntowards\ngoals\nhire\nelection\nsuggest\nbranch\ncharges\nserve\nreasons\nmagic\nmount\nsmart\ntalking\ngave\nones\nmultimedia\navoid\ncertified\nmanage\ncorner\nrank\ncomputing\nelement\nbirth\nvirus\nabuse\ninteractive\nrequests\nseparate\nquarter\nprocedure\nleadership\ntables\ndefine\nracing\nreligious\nfacts\nbreakfast\ncolumn\nplants\nfaith\nchain\ndeveloper\nidentify\navenue\nmissing\ndied\napproximately\ndomestic\nrecommendations\nmoved\nreach\ncomparison\nmental\nviewed\nmoment\nextended\nsequence\ninch\nattack\nsorry\ncenters\nopening\ndamage\nlab\nreserve\nrecipes\nplastic\nproduce\nsnow\nplaced\ntruth\ncounter\nfailure\nfollows\nweekend\ndollar\ncamp\nautomatically\nfilms\nbridge\nnative\nfill\nmovement\nprinting\nbaseball\nowned\napproval\ndraft\nchart\nplayed\ncontacts\nreaders\nclubs\nequal\nadventure\nmatching\noffering\nshirts\nprofit\nleaders\nposters\ninstitutions\nassistant\nvariable\nadvertisement\nexpect\nparking\nheadlines\nyesterday\ncompared\ndetermined\nwholesale\nworkshop\ngone\ncodes\nkinds\nextension\nstatements\ngolden\ncompletely\nteams\nfort\nlighting\nsenate\nforces\nfunny\nbrother\ngene\nturned\nportable\ntried\nelectrical\napplicable\ndisc\nreturned\npattern\nboat\nnamed\ntheatre\nlaser\nearlier\nmanufacturers\nsponsor\nclassical\nicon\nwarranty\ndedicated\ndirection";

/// Technical and business terms that occur in e-mail.
pub const TECHNICAL_TERMS: &'static str = "algorithm\nalgorithms\napi\napplication\nauthentication\nbackend\nbandwidth\nbrowser\ncache\ncloud\ncompiler\ncomputer\nconfiguration\ncryptography\ncybersecurity\ndashboard\ndatabase\ndebugging\ndeployment\ndeveloper\nencryption\nethernet\nfirewall\nframework\nfrontend\ngigabyte\nhardware\nhostname\nhyperlink\ninbox\ninterface\ninternet\njavascript\nkernel\nkeyboard\nlaptop\nlatency\nlocalhost\nlogin\nmalware\nmegabyte\nmetadata\nmiddleware\nnetwork\noffline\nonline\npassword\nplugin\nprogramming\nprotocol\npython\nquery\nrefactor\nrepository\nrouter\nruntime\nscalability\nscreenshot\nserver\nsmartphone\nsoftware\nspreadsheet\nusername\nvirtualization\nwebsite\nwifi\nworkflow\nattachment\nattachments\ncc\nbcc\nforwarded\nreply\nunread\ndrafts\nspam\nsmtp\nimap\noutbox\nsignature\nsubject\nrecipient\nrecipients\nsender\nthread\ncalendar\ndeadline\nagenda\ninvoice\nstakeholder\nstakeholders\nquarterly\nonboarding\nkickoff\nfollowup\nschedule\nmeeting\nmeetings\ncolleague\ncolleagues\nregards\nsincerely\ncheers\nteammate\nroadmap\nmilestone\nmilestones\ndeliverable\ndeliverables\nbudget\nforecast";

/// Further everyday words: greetings, names of days and months, pronouns
/// and connectives.
pub const ADDITIONAL_COMMON: &'static str = "hello\nhi\nthanks\nthank\nyeah\nokay\nok\nemail\nemails\nmessage\nmessages\ncrow\ncrows\nbrown\never\nseen\nthere\nhere\neveryone\nanyone\nsomeone\ntomorrow\nyesterday\ntonight\nweekend\nplease\nsorry\nwelcome\ngoodbye\nbye\ncongratulations\nappreciate\nappreciated\nwonderful\nawesome\nfantastic\ngreat\nnice\nlovely\nkind\nkindly\nregards\nbest\nwishes\nsincerely\ntruly\ndear\nfriend\nfriends\nfamily\nmorning\nafternoon\nevening\nnight\ntoday\nweek\nmonth\nyear\nmonday\ntuesday\nwednesday\nthursday\nfriday\nsaturday\nsunday\njanuary\nfebruary\nmarch\napril\nmay\njune\njuly\naugust\nseptember\noctober\nnovember\ndecember\ni\nme\nmine\nyours\nours\ntheirs\nhers\nhis\nits\nmyself\nourselves\nthemselves\nwhoever\nwhatever\nwhichever\nwhenever\nwherever\nhowever\nalthough\nthough\nunless\nuntil\nsince\nbecause\ntherefore\nmoreover\nfurthermore\nmeanwhile\notherwise\nnevertheless\ninstead\nanyway\nbesides\nperhaps\nmaybe\nprobably\ncertainly\ndefinitely\nabsolutely\nactually\nbasically\nreally\nquite\nrather\nalmost\nnearly\nalready\nstill\nyet\njust\nalso\ntoo\nvery\nmuch\nmany\nmore\nmost\nless\nleast\nfew\nlittle\nenough\nseveral\nvarious\neach\nevery\neither\nneither\nboth\nall\nany\nsome\nnone\nno\nnot\nnever\nalways\noften\nsometimes\nusually\nrarely\nseldom\nonce\ntwice\nagain\nsoon\nlater\nearly\nlate\nnow\nthen\nago\nbefore\nafter\nduring\nwhile\nwithin\nwithout\nabout\nabove\nbelow\nunder\nover\nbetween\namong\nthrough\nacross\nalong\naround\nbehind\nbeside\nbeyond\nnear\nfar\ninside\noutside\nupon\nonto\ninto\ntoward\ntowards";

} // verus!
